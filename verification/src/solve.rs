use rustc_hash::{FxHashMap, FxHashSet};
use vstd::prelude::*;

use crate::classes::{
    class_name, find_instance, fundeps_of, superclasses_of, ClassInfo, ClassTable, FnArities, Inst,
    InstanceEntry, InstanceEnv, InstanceInfo,
};
use crate::ctx::InferCtx;
use crate::diag::{diag, diags, Desc, Diag};
use crate::error::{TypeDesc, TypeError};
use crate::fundeps::{
    fundeps_fit, improve_via_fundeps, improved, improving_loses_nothing, is_composite,
    is_composite_join_tycon, pred_cost, resolve_tys, resolved_tys,
};
use crate::fx::{
    contains_id, get_pair, list_values, lists_keys, put_pair,
};
use crate::plans::{
    context_plans, ctx_len, no_instance, no_instance_error, plan_for, plan_views, push_plan,
    resolve_ctx_dict_args, resolve_dict_plan, stand_in, stand_in_plan, tycon_string, tycon_text,
    var_string, var_text, DictPlan, DictResolution, Plan,
};
use crate::small::IdList;
use crate::table::{resolve, solved, Table};
use crate::text::{decimal, digits, join, joined, texts};
use crate::types::{
    preds, same_type, single, views, BuiltinTyCons, ClassId, Constraint, Pred, Span, Ty, TyConDecl,
    TyConId, TyVid, Type,
};
use crate::unify::{refines, refines_refl, refines_trans};

verus! {

broadcast use {crate::types::group_views, crate::diag::diags_push};

/// What solving goes by: the instances and classes, the constructors of
/// function types, the constructor table, the variables of enclosing scopes,
/// the place of the diagnostics and the built-in constructors.
pub struct Rules {
    pub es: Seq<InstanceEntry>,
    pub cs: Seq<ClassInfo>,
    pub arities: FnArities,
    pub tycons: Seq<TyConDecl>,
    pub outer: Set<u32>,
    pub span: Span,
    pub builtins: Option<BuiltinTyCons>,
}

/// The state of solving.
#[verifier::ext_equal]
pub struct Solver {
    /// The constraints to solve, the next one last.
    pub work: Seq<Pred>,
    /// The pairs of a class and a type that were looked up.
    pub visited: Seq<(u32, Ty)>,
    /// The constraints to generalise over.
    pub retained: Seq<Pred>,
    pub plans: Map<(u32, u32), Plan>,
    pub diags: Seq<Diag>,
    pub table: Table,
}

/// A plan for a key that has none yet.
pub open spec fn or_insert(m: Map<(u32, u32), Plan>, key: (u32, u32), p: Plan) -> Map<
    (u32, u32),
    Plan,
> {
    if m.dom().contains(key) {
        m
    } else {
        m.insert(key, p)
    }
}

/// A constraint kept once.
pub open spec fn retain(cs: Seq<Pred>, c: Pred) -> Seq<Pred> {
    if cs.contains(c) {
        cs
    } else {
        cs.push(c)
    }
}

/// The work with the superclasses added that were not looked up.
pub open spec fn queued(
    work: Seq<Pred>,
    supers: Seq<ClassId>,
    visited: Seq<(u32, Ty)>,
    t: Ty,
    v: TyVid,
) -> Seq<Pred>
    decreases supers.len(),
{
    if supers.len() == 0 {
        work
    } else {
        let before = queued(work, supers.drop_last(), visited, t, v);
        if visited.contains((supers.last().0, t)) {
            before
        } else {
            before.push(single(supers.last(), v))
        }
    }
}

/// Solving a constraint whose type has a known constructor: the first time for
/// a class and a type, the instance is planned and the superclasses are
/// required, or the missing instance is reported.
pub open spec fn discharge(r: Rules, s: Solver, c: Pred, id: TyConId, t: Ty) -> Solver {
    let key = (c.class.0, t);
    if s.visited.contains(key) {
        s
    } else {
        let visited = s.visited.push(key);
        match find_instance(r.es, c.class, seq![id]) {
            None => Solver {
                visited,
                diags: s.diags.push(no_instance(r.cs, c.class, id, r.span)),
                ..s
            },
            Some(e) => {
                let (args, ds) = context_plans(r.es, r.cs, r.span, e.info@, t, ctx_len(e.info@));
                Solver {
                    visited,
                    plans: or_insert(
                        s.plans,
                        (c.class.0, c.tys[0].0),
                        Plan::Static {
                            class: c.class,
                            info: e.info@,
                            tycon: id,
                            extra: Seq::empty(),
                            args,
                        },
                    ),
                    diags: s.diags + ds,
                    work: queued(
                        s.work,
                        superclasses_of(r.cs, c.class),
                        visited,
                        t,
                        c.tys[0],
                    ),
                    ..s
                }
            },
        }
    }
}

/// The report of a constraint that nothing determines.
pub open spec fn ambiguous(r: Rules, class: ClassId, v: TyVid) -> Diag {
    Diag::Ambiguous { class: class_name(r.cs, class), ty_var: Desc::Text(var_text(v)), span: r.span }
}

/// Keeping a constraint over variables of this scope.
pub open spec fn keep(s: Solver, c: Pred) -> Solver {
    Solver {
        retained: retain(s.retained, c),
        plans: or_insert(s.plans, (c.class.0, c.tys[0].0), Plan::Forward(c)),
        ..s
    }
}

/// The report of a function that takes too many parameters for an instance.
pub open spec fn too_wide(r: Rules, class: ClassId, n: nat) -> Diag {
    Diag::NoInstance {
        class: class_name(r.cs, class),
        ty: Desc::Text("a function of arity "@ + digits(n)),
        span: r.span,
        hint: "functions of arity "@ + digits(n) + " cannot be class instances (max "@ + digits(
            (r.arities.count - 1) as nat,
        ) + ")"@,
    }
}

/// The report of a type that no instance can be for.
pub open spec fn no_head(r: Rules, class: ClassId, t: Ty) -> Diag {
    Diag::NoInstance {
        class: class_name(r.cs, class),
        ty: Desc::Ty(t),
        span: r.span,
        hint: "add `instance "@ + class_name(r.cs, class) + " T` where `T` is the concrete type"@,
    }
}

/// Solving a constraint over one variable, which stands for `t`.
pub open spec fn step_single(r: Rules, s: Solver, c: Pred, t: Ty) -> Solver {
    match t {
        Ty::Con(id, _) => discharge(r, s, c, id, t),
        Ty::Var(v) => if r.outer.contains(v.0) {
            Solver { diags: s.diags.push(ambiguous(r, c.class, v)), ..s }
        } else {
            keep(s, single(c.class, v))
        },
        Ty::Fn { params, ret, caps } => match r.arities.con(params.len()) {
            Some(id) => discharge(r, s, c, id, t),
            None => Solver { diags: s.diags.push(too_wide(r, c.class, params.len())), ..s },
        },
        _ => Solver { diags: s.diags.push(no_head(r, c.class, t)), ..s },
    }
}

/// The constructors among the types of a head, in order. A function type has
/// that of its arity.
pub open spec fn head_cons(arities: FnArities, rs: Seq<Ty>) -> Seq<u32>
    decreases rs.len(),
{
    if rs.len() == 0 {
        Seq::empty()
    } else {
        let before = head_cons(arities, rs.drop_last());
        match rs.last() {
            Ty::Con(id, _) => before.push(id.0),
            Ty::Fn { params, ret, caps } => match arities.con(params.len()) {
                Some(id) => before.push(id.0),
                None => before,
            },
            _ => before,
        }
    }
}

/// The variables among the types of a head, in order.
pub open spec fn head_vars(rs: Seq<Ty>) -> Seq<u32>
    decreases rs.len(),
{
    if rs.len() == 0 {
        Seq::empty()
    } else {
        let before = head_vars(rs.drop_last());
        match rs.last() {
            Ty::Var(v) => before.push(v.0),
            _ => before,
        }
    }
}

/// Raw ids as constructors.
pub open spec fn as_cons(ids: Seq<u32>) -> Seq<TyConId> {
    ids.map_values(|i: u32| TyConId(i))
}

/// Raw ids as variables.
pub open spec fn as_vars(ids: Seq<u32>) -> Seq<TyVid> {
    ids.map_values(|i: u32| TyVid(i))
}

/// The instance for a head, and how much of the head it is keyed by: all of
/// it, or for a composite join the receiver alone.
pub open spec fn matched(r: Rules, class: ClassId, heads: Seq<u32>) -> Option<
    (InstanceEntry, nat),
> {
    match find_instance(r.es, class, as_cons(heads)) {
        Some(e) => Some((e, heads.len())),
        None => if heads.len() > 1 && is_composite(r.tycons, TyConId(heads[0])) {
            match find_instance(r.es, class, seq![TyConId(heads[0])]) {
                Some(e) => Some((e, 1)),
                None => None,
            }
        } else {
            None
        },
    }
}

/// The position that stands for the last type of a head.
pub const PREDICATE_RETURN_POS: usize = usize::MAX;

/// The arguments of the types of a head, in one list: those of a constructor,
/// and the parameters and then the result of a function.
pub open spec fn flattened(rs: Seq<Ty>) -> Seq<Ty>
    decreases rs.len(),
{
    if rs.len() == 0 {
        Seq::empty()
    } else {
        let before = flattened(rs.drop_last());
        match rs.last() {
            Ty::Con(_, args) => before + args,
            Ty::Fn { params, ret, caps } => (before + params).push(*ret),
            _ => before,
        }
    }
}

/// The type that a context position refers to.
pub open spec fn at_position(flat: Seq<Ty>, pos: usize) -> Option<Ty> {
    if pos == PREDICATE_RETURN_POS {
        if flat.len() > 0 {
            Some(flat.last())
        } else {
            None
        }
    } else if pos < flat.len() {
        Some(flat[pos as int])
    } else {
        None
    }
}

/// The plans for the first `k` constraints of the context of an instance with
/// a head of several types.
pub open spec fn multi_plans(r: Rules, info: Inst, flat: Seq<Ty>, k: nat) -> (Seq<Plan>, Seq<Diag>)
    decreases k,
{
    if k == 0 || k > ctx_len(info) {
        (Seq::empty(), Seq::empty())
    } else {
        let (before, ds) = multi_plans(r, info, flat, (k - 1) as nat);
        let class = info.ctx[k - 1].class;
        let (p, more) = match at_position(flat, info.positions[k - 1]) {
            Some(t) => plan_for(r.es, r.cs, r.span, class, t),
            None => (stand_in(class), Seq::empty()),
        };
        (before.push(p), ds + more)
    }
}

/// The texts of the constructors of a head.
pub open spec fn con_texts(ids: Seq<u32>) -> Seq<Seq<char>> {
    ids.map_values(|i: u32| tycon_text(TyConId(i)))
}

/// The report of a head that no instance is for.
pub open spec fn no_combination(r: Rules, class: ClassId, heads: Seq<u32>) -> Diag {
    Diag::NoInstance {
        class: class_name(r.cs, class),
        ty: Desc::Text(joined(con_texts(heads), " "@)),
        span: r.span,
        hint: "add `instance "@ + class_name(r.cs, class) + " …` for this combination of types"@,
    }
}

/// The first of some variables that belongs to an enclosing scope.
pub open spec fn first_outer(outer: Set<u32>, vars: Seq<u32>) -> Option<u32>
    decreases vars.len(),
{
    if vars.len() == 0 {
        None
    } else if outer.contains(vars[0]) {
        Some(vars[0])
    } else {
        first_outer(outer, vars.skip(1))
    }
}

/// Solving a constraint over several variables, which stand for `rs`.
pub open spec fn classify(r: Rules, s: Solver, c: Pred, rs: Seq<Ty>) -> Solver {
    let heads = head_cons(r.arities, rs);
    let vars = head_vars(rs);
    if heads.len() == c.tys.len() {
        match matched(r, c.class, heads) {
            None => Solver { diags: s.diags.push(no_combination(r, c.class, heads)), ..s },
            Some((e, keyed)) => {
                let key = (c.class.0, c.tys[0].0);
                if s.plans.dom().contains(key) {
                    s
                } else {
                    let (args, ds) = multi_plans(r, e.info@, flattened(rs), ctx_len(e.info@));
                    Solver {
                        plans: s.plans.insert(
                            key,
                            Plan::Static {
                                class: c.class,
                                info: e.info@,
                                tycon: TyConId(heads[0]),
                                extra: heads.subrange(1, keyed as int),
                                args,
                            },
                        ),
                        diags: s.diags + ds,
                        ..s
                    }
                }
            },
        }
    } else if vars.len() == c.tys.len() {
        match first_outer(r.outer, vars) {
            Some(v) => Solver { diags: s.diags.push(ambiguous(r, c.class, TyVid(v))), ..s },
            None => keep(s, Pred { class: c.class, tys: as_vars(vars) }),
        }
    } else {
        let v = if vars.len() > 0 {
            TyVid(vars[0])
        } else {
            c.tys[0]
        };
        Solver { diags: s.diags.push(ambiguous(r, c.class, v)), ..s }
    }
}

/// What the functional dependencies make of a constraint over several
/// variables.
pub open spec fn determined(r: Rules, tb: Table, c: Pred) -> (Table, Option<Diag>) {
    match r.builtins {
        None => (tb, None),
        Some(b) => {
            let fds = fundeps_of(r.cs, c.class);
            improved(
                tb,
                b,
                r.tycons,
                r.es,
                c,
                resolved_tys(tb, c.tys),
                fds,
                fds.len(),
                r.span,
            )
        },
    }
}

/// Solving a constraint over several variables.
pub open spec fn step_multi(r: Rules, s: Solver, c: Pred) -> Solver {
    let (tb, d) = determined(r, s.table, c);
    match d {
        Some(x) => Solver { table: tb, diags: s.diags.push(x), ..s },
        None => classify(r, Solver { table: tb, ..s }, c, resolved_tys(tb, c.tys)),
    }
}

/// Solving the next constraint.
pub open spec fn step(r: Rules, s: Solver) -> Solver {
    let c = s.work.last();
    let s1 = Solver { work: s.work.drop_last(), ..s };
    if c.tys.len() == 1 {
        step_single(r, s1, c, resolve(s.table, Ty::Var(c.tys[0])))
    } else {
        step_multi(r, s1, c)
    }
}

/// Solving up to `n` constraints.
pub open spec fn run(r: Rules, s: Solver, n: nat) -> Solver
    decreases n,
{
    if n == 0 || s.work.len() == 0 {
        s
    } else {
        run(r, step(r, s), (n - 1) as nat)
    }
}

/// `t` is what is left of `s` once every constraint is solved.
pub open spec fn solves(r: Rules, s: Solver, t: Solver) -> bool {
    t.work.len() == 0 && exists|n: nat| #[trigger] run(r, s, n) == t
}

/// The state before the first constraint.
pub open spec fn initial(work: Seq<Pred>, ds: Seq<Diag>, tb: Table) -> Solver {
    Solver {
        work,
        visited: Seq::empty(),
        retained: Seq::empty(),
        plans: Map::empty(),
        diags: ds,
        table: tb,
    }
}

/// The constraint can be solved: it is about something, and the functional
/// dependencies of its class are about its positions.
pub open spec fn solvable(r: Rules, c: Pred) -> bool {
    c.tys.len() >= 1 && (c.tys.len() > 1 ==> fundeps_fit(fundeps_of(r.cs, c.class), c))
}

/// How many variables solving the constraints may need.
pub open spec fn work_cost(r: Rules, work: Seq<Pred>) -> nat
    decreases work.len(),
{
    if work.len() == 0 {
        0
    } else {
        let c = work.last();
        work_cost(r, work.drop_last()) + if c.tys.len() > 1 {
            pred_cost(r.es, fundeps_of(r.cs, c.class))
        } else {
            0
        }
    }
}

/// What a table of plans denotes.
pub open spec fn plans_of(m: Map<(u32, u32), DictPlan>) -> Map<(u32, u32), Plan> {
    m.map_values(|p: DictPlan| p@)
}

/// How many instances of one constructor were not looked up for a type.
pub open spec fn pending(es: Seq<InstanceEntry>, visited: Seq<(u32, Ty)>, t: Ty) -> nat
    decreases es.len(),
{
    if es.len() == 0 {
        0
    } else {
        let rest = pending(es.skip(1), visited, t);
        if es[0].key@.len() == 1 && !visited.contains((es[0].class.0, t)) {
            rest + 1
        } else {
            rest
        }
    }
}

/// How many instances were not looked up for the types of some variables.
pub open spec fn unseen(
    es: Seq<InstanceEntry>,
    vs: Seq<TyVid>,
    tb: Table,
    visited: Seq<(u32, Ty)>,
) -> nat
    decreases vs.len(),
{
    if vs.len() == 0 {
        0
    } else {
        unseen(es, vs.drop_last(), tb, visited) + pending(
            es,
            visited,
            resolve(tb, Ty::Var(vs.last())),
        )
    }
}

/// How many constraints are over more than one variable.
pub open spec fn multis(work: Seq<Pred>) -> nat
    decreases work.len(),
{
    if work.len() == 0 {
        0
    } else {
        multis(work.drop_last()) + if work.last().tys.len() == 1 {
            0nat
        } else {
            1nat
        }
    }
}

/// The variables of the constraints over one variable are among `vs`.
pub open spec fn about_vars(work: Seq<Pred>, vs: Seq<TyVid>) -> bool {
    forall|i: int|
        0 <= i < work.len() && (#[trigger] work[i]).tys.len() == 1 ==> vs.contains(work[i].tys[0])
}

/// The first variable of each constraint.
pub open spec fn first_vars(work: Seq<Pred>) -> Seq<TyVid> {
    Seq::new(work.len(), |i: int| work[i].tys[0])
}

proof fn first_vars_cover(work: Seq<Pred>)
    ensures
        about_vars(work, first_vars(work)),
{
    assert forall|i: int| 0 <= i < work.len() && (#[trigger] work[i]).tys.len() == 1 implies first_vars(
        work,
    ).contains(work[i].tys[0]) by {
        assert(first_vars(work)[i] == work[i].tys[0]);
    }
}

proof fn one_more_seen(visited: Seq<(u32, Ty)>, key: (u32, Ty))
    ensures
        forall|x: (u32, Ty)| #[trigger]
            visited.push(key).contains(x) <==> visited.contains(x) || x == key,
{
    let more = visited.push(key);
    assert forall|x: (u32, Ty)| #[trigger] more.contains(x) <==> visited.contains(x) || x == key by {
        if visited.contains(x) {
            let i = choose|i: int| 0 <= i < visited.len() && visited[i] == x;
            assert(more[i] == x);
        }
        assert(more[visited.len() as int] == key);
    }
}

proof fn pending_le(es: Seq<InstanceEntry>, visited: Seq<(u32, Ty)>, key: (u32, Ty), t: Ty)
    ensures
        pending(es, visited.push(key), t) <= pending(es, visited, t),
    decreases es.len(),
{
    one_more_seen(visited, key);
    if es.len() > 0 {
        pending_le(es.skip(1), visited, key, t);
    }
}

proof fn pending_lt(
    es: Seq<InstanceEntry>,
    visited: Seq<(u32, Ty)>,
    class: ClassId,
    id: TyConId,
    t: Ty,
)
    requires
        find_instance(es, class, seq![id]) is Some,
        !visited.contains((class.0, t)),
    ensures
        pending(es, visited.push((class.0, t)), t) < pending(es, visited, t),
    decreases es.len(),
{
    let key = (class.0, t);
    one_more_seen(visited, key);
    if es.len() > 0 {
        if es[0].class == class && es[0].key@ == seq![id] {
            assert(es[0].key@[0] == id);
            pending_le(es.skip(1), visited, key, t);
        } else {
            pending_lt(es.skip(1), visited, class, id, t);
        }
    }
}

proof fn unseen_le(
    es: Seq<InstanceEntry>,
    vs: Seq<TyVid>,
    tb: Table,
    visited: Seq<(u32, Ty)>,
    key: (u32, Ty),
)
    ensures
        unseen(es, vs, tb, visited.push(key)) <= unseen(es, vs, tb, visited),
    decreases vs.len(),
{
    if vs.len() > 0 {
        unseen_le(es, vs.drop_last(), tb, visited, key);
        pending_le(es, visited, key, resolve(tb, Ty::Var(vs.last())));
    }
}

proof fn unseen_lt(
    es: Seq<InstanceEntry>,
    vs: Seq<TyVid>,
    tb: Table,
    visited: Seq<(u32, Ty)>,
    class: ClassId,
    id: TyConId,
    v: TyVid,
)
    requires
        vs.contains(v),
        find_instance(es, class, seq![id]) is Some,
        !visited.contains((class.0, resolve(tb, Ty::Var(v)))),
    ensures
        unseen(es, vs, tb, visited.push((class.0, resolve(tb, Ty::Var(v))))) < unseen(
            es,
            vs,
            tb,
            visited,
        ),
    decreases vs.len(),
{
    let t = resolve(tb, Ty::Var(v));
    let key = (class.0, t);
    let i = choose|i: int| 0 <= i < vs.len() && vs[i] == v;
    if vs.last() == v {
        unseen_le(es, vs.drop_last(), tb, visited, key);
        pending_lt(es, visited, class, id, t);
    } else {
        assert(vs.drop_last()[i] == v);
        unseen_lt(es, vs.drop_last(), tb, visited, class, id, v);
        pending_le(es, visited, key, resolve(tb, Ty::Var(vs.last())));
    }
}

/// Superclasses cost nothing, are over the same variable and can be solved.
proof fn queued_ok(
    r: Rules,
    work: Seq<Pred>,
    supers: Seq<ClassId>,
    visited: Seq<(u32, Ty)>,
    t: Ty,
    v: TyVid,
    vs: Seq<TyVid>,
)
    requires
        forall|i: int| 0 <= i < work.len() ==> solvable(r, #[trigger] work[i]),
    ensures
        work_cost(r, queued(work, supers, visited, t, v)) == work_cost(r, work),
        multis(queued(work, supers, visited, t, v)) == multis(work),
        about_vars(work, vs) && vs.contains(v) ==> about_vars(
            queued(work, supers, visited, t, v),
            vs,
        ),
        forall|i: int|
            0 <= i < queued(work, supers, visited, t, v).len() ==> solvable(
                r,
                #[trigger] queued(work, supers, visited, t, v)[i],
            ),
    decreases supers.len(),
{
    if supers.len() > 0 {
        queued_ok(r, work, supers.drop_last(), visited, t, v, vs);
        let before = queued(work, supers.drop_last(), visited, t, v);
        let c = single(supers.last(), v);
        assert(before.push(c).drop_last() =~= before);
        assert(before.push(c).last() == c);
        assert(c.tys.len() == 1);
    }
}

/// What a step keeps, and why solving ends.
pub open spec fn in_order(r: Rules, s: Solver) -> bool {
    &&& forall|i: int| 0 <= i < s.work.len() ==> solvable(r, #[trigger] s.work[i])
    &&& solved(s.table)
    &&& s.table.types.len() + work_cost(r, s.work) <= u32::MAX
}

/// Solving one more constraint.
proof fn run_more(r: Rules, s: Solver, n: nat)
    requires
        run(r, s, n).work.len() > 0,
    ensures
        run(r, s, n + 1) == step(r, run(r, s, n)),
    decreases n,
{
    if n > 0 && s.work.len() > 0 {
        run_more(r, step(r, s), (n - 1) as nat);
    }
    if n == 0 {
        assert(run(r, step(r, s), 0) == step(r, s));
    }
}

/// What the parts of solving share.
pub struct Ground<'a> {
    pub instances: &'a InstanceEnv,
    pub classes: &'a ClassTable,
    pub outer: &'a FxHashSet<u32>,
    pub span: Span,
    pub builtins: Option<&'a BuiltinTyCons>,
}

/// How far solving has come.
pub struct Progress {
    pub work: Vec<Constraint>,
    pub visited: Vec<(ClassId, Type)>,
    pub retained: Vec<Constraint>,
    pub plans: DictResolution,
}

impl<'a> Ground<'a> {
    pub open spec fn rules(&self, tycons: Seq<TyConDecl>) -> Rules {
        rules_of(*self.instances, *self.classes, tycons, self.outer@, self.span, self.builtins)
    }
}

/// What solving goes by.
pub open spec fn rules_of(
    instances: InstanceEnv,
    classes: ClassTable,
    tycons: Seq<TyConDecl>,
    outer: Set<u32>,
    span: Span,
    builtins: Option<&BuiltinTyCons>,
) -> Rules {
    Rules {
        es: instances.entries@,
        cs: classes.classes@,
        arities: instances.fn_arities,
        tycons,
        outer,
        span,
        builtins: match builtins {
            Some(b) => Some(*b),
            None => None,
        },
    }
}

/// The classes and types that were looked up.
pub open spec fn looked_up(v: Seq<(ClassId, Type)>) -> Seq<(u32, Ty)> {
    v.map_values(|p: (ClassId, Type)| (p.0.0, p.1@))
}

/// Whether a class was looked up for a type.
fn is_looked_up(visited: &Vec<(ClassId, Type)>, class: ClassId, t: &Type) -> (r: bool)
    ensures
        r == looked_up(visited@).contains((class.0, t@)),
{
    let ghost seen = looked_up(visited@);
    let mut i: usize = 0;
    while i < visited.len()
        invariant
            i <= visited@.len(),
            seen == looked_up(visited@),
            forall|k: int| 0 <= k < i ==> #[trigger] seen[k] != (class.0, t@),
        decreases visited@.len() - i,
    {
        assert(seen[i as int] == (visited@[i as int].0.0, visited@[i as int].1@));
        if visited[i].0.0 == class.0 && same_type(&visited[i].1, t) {
            assert(seen[i as int] == (class.0, t@));
            return true;
        }
        i = i + 1;
    }
    false
}

/// The state of solving.
pub open spec fn state(p: Progress, ctx: InferCtx) -> Solver {
    Solver {
        work: preds(p.work@),
        visited: looked_up(p.visited@),
        retained: preds(p.retained@),
        plans: plans_of(p.plans@),
        diags: diags(ctx.errors@),
        table: ctx.table(),
    }
}

fn or_insert_plan(plans: &mut DictResolution, key: (u32, u32), p: DictPlan)
    ensures
        plans_of(final(plans)@) == or_insert(plans_of(old(plans)@), key, p@),
{
    let known = get_pair(plans, key).is_some();
    if !known {
        put_pair(plans, key, p);
        assert(plans_of(plans@) =~= plans_of(old(plans)@).insert(key, p@));
    }
}

fn retain_constraint(retained: &mut Vec<Constraint>, c: &Constraint)
    ensures
        preds(final(retained)@) == retain(preds(old(retained)@), c@),
{
    let mut i: usize = 0;
    while i < retained.len()
        invariant
            i <= retained@.len(),
            forall|k: int| 0 <= k < i ==> (#[trigger] retained@[k])@ != c@,
            *retained == *old(retained),
        decreases retained@.len() - i,
    {
        if retained[i].same(c) {
            assert(preds(retained@)[i as int] == c@);
            return;
        }
        i = i + 1;
    }
    assert(!preds(retained@).contains(c@)) by {
        assert forall|k: int| 0 <= k < preds(retained@).len() implies preds(retained@)[k] != c@ by {
            assert(retained@[k]@ != c@);
        }
    }
    retained.push(c.clone());
    assert(preds(retained@) =~= preds(old(retained)@).push(c@));
}

fn keep_constraint(p: &mut Progress, c: Constraint)
    requires
        c@.tys.len() >= 1,
    ensures
        preds(final(p).retained@) == retain(preds(old(p).retained@), c@),
        plans_of(final(p).plans@) == or_insert(
            plans_of(old(p).plans@),
            (c.class.0, c@.tys[0].0),
            Plan::Forward(c@),
        ),
        *final(p) == (Progress {
            retained: final(p).retained,
            plans: final(p).plans,
            ..*old(p)
        }),
{
    retain_constraint(&mut p.retained, &c);
    let key = (c.class.0, c.tys[0].0);
    or_insert_plan(&mut p.plans, key, DictPlan::Forward(c));
}

fn queue_supers(
    work: &mut Vec<Constraint>,
    supers: &Vec<ClassId>,
    visited: &Vec<(ClassId, Type)>,
    t: &Type,
    v: TyVid,
)
    ensures
        preds(final(work)@) == queued(preds(old(work)@), supers@, looked_up(visited@), t@, v),
{
    let mut i: usize = 0;
    assert(supers@.take(0) =~= Seq::empty());
    while i < supers.len()
        invariant
            i <= supers@.len(),
            preds(work@) == queued(
                preds(old(work)@),
                supers@.take(i as int),
                looked_up(visited@),
                t@,
                v,
            ),
        decreases supers@.len() - i,
    {
        let super_class = supers[i];
        assert(supers@.take(i + 1).drop_last() =~= supers@.take(i as int));
        if !is_looked_up(visited, super_class, t) {
            let ghost was = work@;
            work.push(Constraint::single(super_class, v));
            assert(preds(work@) =~= preds(was).push(single(super_class, v)));
        }
        i = i + 1;
    }
    assert(supers@.take(i as int) =~= supers@);
}

/// Solves a constraint whose type has a known constructor.
fn discharge_concrete(
    ctx: &mut InferCtx,
    g: &Ground,
    p: &mut Progress,
    c: &Constraint,
    id: TyConId,
    t: &Type,
)
    requires
        c@.tys.len() >= 1,
    ensures
        state(*final(p), *final(ctx)) == discharge(
            g.rules(old(ctx).tycon_decls@),
            state(*old(p), *old(ctx)),
            c@,
            id,
            t@,
        ),
        *final(ctx) == (InferCtx { errors: final(ctx).errors, ..*old(ctx) }),
{
    let ghost r = g.rules(ctx.tycon_decls@);
    let ghost s0 = state(*p, *ctx);
    if is_looked_up(&p.visited, c.class, t) {
        return;
    }
    let ghost was = p.visited@;
    p.visited.push((c.class, t.clone()));
    assert(looked_up(p.visited@) =~= looked_up(was).push((c.class.0, t@)));
    match g.instances.get(c.class, id) {
        None => {
            ctx.errors.push(no_instance_error(g.classes, c.class, id, g.span));
        },
        Some(e) => {
            let args = resolve_ctx_dict_args(
                &mut ctx.errors,
                g.instances,
                g.classes,
                g.span,
                &e.info,
                t,
            );
            let v = c.tys[0];
            let plan = DictPlan::Static {
                class: c.class,
                info: Box::new(e.info.clone()),
                tycon: id,
                extra_head: IdList::new(),
                args,
            };
            or_insert_plan(&mut p.plans, (c.class.0, v.0), plan);
            if let Some(info) = g.classes.get(c.class) {
                queue_supers(&mut p.work, &info.superclasses, &p.visited, t, v);
            }
        },
    }
    assert(state(*p, *ctx) =~= discharge(r, s0, c@, id, t@));
}

fn ambiguous_error(g: &Ground, class: ClassId, v: TyVid, Ghost(r): Ghost<Rules>) -> (e: TypeError)
    requires
        r.cs == g.classes.classes@,
        r.span == g.span,
    ensures
        diag(e) == ambiguous(r, class, v),
{
    TypeError::AmbiguousConstraint {
        class: g.classes.name_of(class),
        ty_var: TypeDesc::Text(var_string(v)),
        span: g.span,
    }
}

/// Solves a constraint over one variable, which stands for `resolved`.
fn dispatch_constraint(
    ctx: &mut InferCtx,
    g: &Ground,
    p: &mut Progress,
    c: &Constraint,
    resolved: &Type,
)
    requires
        c@.tys.len() == 1,
        g.instances.fn_arities.wf(),
    ensures
        state(*final(p), *final(ctx)) == step_single(
            g.rules(old(ctx).tycon_decls@),
            state(*old(p), *old(ctx)),
            c@,
            resolved@,
        ),
        *final(ctx) == (InferCtx { errors: final(ctx).errors, ..*old(ctx) }),
{
    let ghost r = g.rules(ctx.tycon_decls@);
    let ghost s0 = state(*p, *ctx);
    match resolved {
        Type::Con(id, args) => {
            assert(resolved@ == Ty::Con(*id, views(args@)));
            discharge_concrete(ctx, g, p, c, *id, resolved);
        },
        Type::Var(v) => {
            if contains_id(g.outer, v.0) {
                ctx.errors.push(ambiguous_error(g, c.class, *v, Ghost(r)));
            } else {
                let kept = Constraint::single(c.class, *v);
                keep_constraint(p, kept);
            }
            assert(state(*p, *ctx) =~= step_single(r, s0, c@, resolved@));
        },
        Type::Fn { params, ret, caps } => {
            assert(resolved@ == Ty::Fn {
                params: views(params@),
                ret: Box::new(ret@),
                caps: *caps,
            });
            match g.instances.fn_arities.tycon(params.len()) {
                Some(id) => {
                    discharge_concrete(ctx, g, p, c, id, resolved);
                },
                None => {
                    let n = decimal(params.len() as u128);
                    let mut ty = "a function of arity ".to_owned();
                    ty.append(n.as_str());
                    let mut fix_hint = "functions of arity ".to_owned();
                    fix_hint.append(n.as_str());
                    fix_hint.append(" cannot be class instances (max ");
                    fix_hint.append(decimal((g.instances.fn_arities.count - 1) as u128).as_str());
                    fix_hint.append(")");
                    ctx.errors.push(
                        TypeError::NoInstance {
                            class: g.classes.name_of(c.class),
                            ty: TypeDesc::Text(ty),
                            span: g.span,
                            fix_hint,
                        },
                    );
                    assert(state(*p, *ctx) =~= step_single(r, s0, c@, resolved@));
                },
            }
        },
        _ => {
            let class = g.classes.name_of(c.class);
            let mut fix_hint = "add `instance ".to_owned();
            fix_hint.append(class.as_str());
            fix_hint.append(" T` where `T` is the concrete type");
            ctx.errors.push(
                TypeError::NoInstance {
                    class,
                    ty: TypeDesc::Ty(resolved.clone()),
                    span: g.span,
                    fix_hint,
                },
            );
            assert(state(*p, *ctx) =~= step_single(r, s0, c@, resolved@));
        },
    }
}

/// The constructors and the variables among the types of a head.
fn collect_heads(arities: &FnArities, rs: &Vec<Type>) -> (r: (IdList, IdList))
    requires
        arities.wf(),
    ensures
        r.0@ == head_cons(*arities, views(rs@)),
        r.1@ == head_vars(views(rs@)),
{
    let mut cons = IdList::new();
    let mut vars = IdList::new();
    let mut i: usize = 0;
    let ghost all = views(rs@);
    assert(all.take(0) =~= Seq::empty());
    while i < rs.len()
        invariant
            i <= rs@.len(),
            all == views(rs@),
            arities.wf(),
            cons@ == head_cons(*arities, all.take(i as int)),
            vars@ == head_vars(all.take(i as int)),
        decreases rs@.len() - i,
    {
        assert(all.take(i + 1).drop_last() =~= all.take(i as int));
        assert(all.take(i + 1).last() == rs@[i as int]@);
        match &rs[i] {
            Type::Con(id, args) => {
                assert(rs@[i as int]@ == Ty::Con(*id, views(args@)));
                cons.push(id.0);
            },
            Type::Fn { params, ret, caps } => {
                assert(rs@[i as int]@ == Ty::Fn {
                    params: views(params@),
                    ret: Box::new(ret@),
                    caps: *caps,
                });
                if let Some(id) = arities.tycon(params.len()) {
                    cons.push(id.0);
                }
            },
            Type::Var(v) => {
                vars.push(v.0);
            },
            _ => {},
        }
        i = i + 1;
    }
    assert(all.take(i as int) =~= all);
    (cons, vars)
}

/// The items of a list from `from` up to `to`.
fn slice_ids(ids: &IdList, from: usize, to: usize) -> (r: IdList)
    requires
        from <= to <= ids@.len(),
    ensures
        r@ == ids@.subrange(from as int, to as int),
{
    let mut out = IdList::new();
    let mut i: usize = from;
    assert(out@ =~= ids@.subrange(from as int, from as int));
    while i < to
        invariant
            from <= i <= to <= ids@.len(),
            out@ == ids@.subrange(from as int, i as int),
        decreases to - i,
    {
        out.push(ids.at(i));
        i = i + 1;
        assert(out@ =~= ids@.subrange(from as int, i as int));
    }
    out
}

fn con_list(ids: &IdList) -> (r: Vec<TyConId>)
    ensures
        r@ == as_cons(ids@),
{
    let mut out: Vec<TyConId> = Vec::new();
    let mut i: usize = 0;
    let n: usize = ids.len();
    while i < n
        invariant
            i <= n,
            n == ids@.len(),
            out@.len() == i,
            forall|k: int| 0 <= k < i ==> #[trigger] out@[k] == TyConId(ids@[k]),
        decreases n - i,
    {
        out.push(TyConId(ids.at(i)));
        i = i + 1;
    }
    assert(out@ =~= as_cons(ids@));
    out
}

fn var_list(ids: &IdList) -> (r: Vec<TyVid>)
    ensures
        r@ == as_vars(ids@),
{
    let mut out: Vec<TyVid> = Vec::new();
    let mut i: usize = 0;
    let n: usize = ids.len();
    while i < n
        invariant
            i <= n,
            n == ids@.len(),
            out@.len() == i,
            forall|k: int| 0 <= k < i ==> #[trigger] out@[k] == TyVid(ids@[k]),
        decreases n - i,
    {
        out.push(TyVid(ids.at(i)));
        i = i + 1;
    }
    assert(out@ =~= as_vars(ids@));
    out
}

fn con_strings(ids: &IdList) -> (r: Vec<String>)
    ensures
        texts(r@) == con_texts(ids@),
{
    let mut out: Vec<String> = Vec::new();
    let mut i: usize = 0;
    let n: usize = ids.len();
    while i < n
        invariant
            i <= n,
            n == ids@.len(),
            out@.len() == i,
            forall|k: int| 0 <= k < i ==> (#[trigger] out@[k])@ == tycon_text(TyConId(ids@[k])),
        decreases n - i,
    {
        out.push(tycon_string(TyConId(ids.at(i))));
        i = i + 1;
    }
    assert(texts(out@) =~= con_texts(ids@));
    out
}

/// The instance for a head, and how much of the head it is keyed by.
fn find_matched<'a>(
    instances: &'a InstanceEnv,
    tycons: &Vec<TyConDecl>,
    class: ClassId,
    heads: &IdList,
    Ghost(r): Ghost<Rules>,
) -> (found: Option<(&'a InstanceEntry, usize)>)
    requires
        r.es == instances.entries@,
        r.tycons == tycons@,
    ensures
        found is Some <==> matched(r, class, heads@) is Some,
        found matches Some(f) ==> matched(r, class, heads@) == Some((*f.0, f.1 as nat)),
{
    match instances.get_multi(class, &con_list(heads)) {
        Some(e) => Some((e, heads.len())),
        None => if heads.len() > 1 && is_composite_join_tycon(tycons, TyConId(heads.at(0))) {
            match instances.get(class, TyConId(heads.at(0))) {
                Some(e) => Some((e, 1)),
                None => None,
            }
        } else {
            None
        },
    }
}

/// The first of some variables that belongs to an enclosing scope.
fn find_outer(outer: &FxHashSet<u32>, vars: &IdList) -> (r: Option<u32>)
    ensures
        r == first_outer(outer@, vars@),
{
    let mut i: usize = 0;
    let n: usize = vars.len();
    assert(vars@.skip(0) =~= vars@);
    while i < n
        invariant
            i <= n,
            n == vars@.len(),
            first_outer(outer@, vars@) == first_outer(outer@, vars@.skip(i as int)),
        decreases n - i,
    {
        let v: u32 = vars.at(i);
        assert(vars@.skip(i as int)[0] == v);
        assert(vars@.skip(i as int).skip(1) =~= vars@.skip(i + 1));
        if contains_id(outer, v) {
            return Some(v);
        }
        i = i + 1;
    }
    None
}

fn push_all_types<'a>(out: &mut Vec<&'a Type>, ts: &'a Vec<Type>)
    ensures
        ref_views(final(out)@) == ref_views(old(out)@) + views(ts@),
{
    let mut i: usize = 0;
    assert(ref_views(out@) =~= ref_views(old(out)@) + views(ts@).take(0));
    while i < ts.len()
        invariant
            i <= ts@.len(),
            ref_views(out@) == ref_views(old(out)@) + views(ts@).take(i as int),
        decreases ts@.len() - i,
    {
        let ghost was = out@;
        out.push(&ts[i]);
        assert(ref_views(out@) =~= ref_views(was).push(views(ts@)[i as int]));
        i = i + 1;
        assert(ref_views(out@) =~= ref_views(old(out)@) + views(ts@).take(i as int));
    }
    assert(views(ts@).take(i as int) =~= views(ts@));
}

/// The types behind references.
pub open spec fn ref_views(ts: Seq<&Type>) -> Seq<Ty> {
    ts.map_values(|t: &Type| t@)
}

/// The arguments of the types of a head, in one list.
fn flatten_atoms<'a>(rs: &'a Vec<Type>) -> (r: Vec<&'a Type>)
    ensures
        ref_views(r@) == flattened(views(rs@)),
{
    let mut out: Vec<&Type> = Vec::new();
    let mut i: usize = 0;
    let ghost all = views(rs@);
    assert(all.take(0) =~= Seq::empty());
    assert(ref_views(out@) =~= Seq::empty());
    while i < rs.len()
        invariant
            i <= rs@.len(),
            all == views(rs@),
            ref_views(out@) == flattened(all.take(i as int)),
        decreases rs@.len() - i,
    {
        assert(all.take(i + 1).drop_last() =~= all.take(i as int));
        assert(all.take(i + 1).last() == rs@[i as int]@);
        match &rs[i] {
            Type::Con(id, args) => {
                assert(rs@[i as int]@ == Ty::Con(*id, views(args@)));
                push_all_types(&mut out, args);
            },
            Type::Fn { params, ret, caps } => {
                assert(rs@[i as int]@ == Ty::Fn {
                    params: views(params@),
                    ret: Box::new(ret@),
                    caps: *caps,
                });
                push_all_types(&mut out, params);
                let ghost was = out@;
                out.push(ret);
                assert(ref_views(out@) =~= ref_views(was).push(ret@));
            },
            _ => {},
        }
        i = i + 1;
    }
    assert(all.take(i as int) =~= all);
    out
}

/// The plans for the context of an instance with a head of several types.
fn resolve_ctx_dict_args_multi(
    errors: &mut Vec<TypeError>,
    g: &Ground,
    info: &InstanceInfo,
    rs: &Vec<Type>,
    Ghost(r): Ghost<Rules>,
) -> (out: Vec<DictPlan>)
    requires
        r.es == g.instances.entries@,
        r.cs == g.classes.classes@,
        r.span == g.span,
    ensures
        plan_views(out@) == multi_plans(r, info@, flattened(views(rs@)), ctx_len(info@)).0,
        diags(final(errors)@) == diags(old(errors)@) + multi_plans(
            r,
            info@,
            flattened(views(rs@)),
            ctx_len(info@),
        ).1,
{
    let flat = flatten_atoms(rs);
    let ghost ft = flattened(views(rs@));
    let ghost all = info@;
    let mut out: Vec<DictPlan> = Vec::new();
    let mut k: usize = 0;
    assert(plan_views(out@) =~= Seq::empty());
    assert(diags(errors@) =~= diags(old(errors)@) + Seq::empty());
    while k < info.ctx_constraints.len() && k < info.head_var_positions.len()
        invariant
            k <= ctx_len(all),
            all == info@,
            ref_views(flat@) == ft,
            r.es == g.instances.entries@,
            r.cs == g.classes.classes@,
            r.span == g.span,
            plan_views(out@) == multi_plans(r, all, ft, k as nat).0,
            diags(errors@) == diags(old(errors)@) + multi_plans(r, all, ft, k as nat).1,
        decreases ctx_len(all) - k,
    {
        let class = info.ctx_constraints[k].class;
        assert(all.ctx[k as int] == info.ctx_constraints@[k as int]@);
        let pos: usize = info.head_var_positions[k];
        let ghost before = diags(errors@);
        let at: usize = if pos == PREDICATE_RETURN_POS && flat.len() > 0 {
            flat.len() - 1
        } else {
            pos
        };
        let plan = if at < flat.len() && (pos != PREDICATE_RETURN_POS || flat.len() > 0) {
            assert(ft[at as int] == flat@[at as int]@);
            resolve_dict_plan(errors, g.instances, g.classes, g.span, class, flat[at])
        } else {
            stand_in_plan(class)
        };
        push_plan(&mut out, plan);
        k = k + 1;
        assert(diags(errors@) =~= diags(old(errors)@) + multi_plans(r, all, ft, k as nat).1);
    }
    out
}

/// Solves a constraint over several variables, which stand for `rs`.
fn classify_constraint(
    ctx: &mut InferCtx,
    g: &Ground,
    p: &mut Progress,
    c: &Constraint,
    rs: &Vec<Type>,
)
    requires
        c@.tys.len() >= 1,
        g.instances.fn_arities.wf(),
    ensures
        state(*final(p), *final(ctx)) == classify(
            g.rules(old(ctx).tycon_decls@),
            state(*old(p), *old(ctx)),
            c@,
            views(rs@),
        ),
        *final(ctx) == (InferCtx { errors: final(ctx).errors, ..*old(ctx) }),
{
    let ghost r = g.rules(ctx.tycon_decls@);
    let ghost s0 = state(*p, *ctx);
    let (heads, vars) = collect_heads(&g.instances.fn_arities, rs);
    if heads.len() == c.tys.len() {
        match find_matched(g.instances, &ctx.tycon_decls, c.class, &heads, Ghost(r)) {
            None => {
                let class = g.classes.name_of(c.class);
                let mut fix_hint = "add `instance ".to_owned();
                fix_hint.append(class.as_str());
                fix_hint.append(" …` for this combination of types");
                let ty = TypeDesc::Text(join(&con_strings(&heads), " "));
                ctx.errors.push(TypeError::NoInstance { class, ty, span: g.span, fix_hint });
            },
            Some((e, keyed)) => {
                let key = (c.class.0, c.tys[0].0);
                if get_pair(&p.plans, key).is_none() {
                    let args = resolve_ctx_dict_args_multi(
                        &mut ctx.errors,
                        g,
                        &e.info,
                        rs,
                        Ghost(r),
                    );
                    let plan = DictPlan::Static {
                        class: c.class,
                        info: Box::new(e.info.clone()),
                        tycon: TyConId(heads.at(0)),
                        extra_head: slice_ids(&heads, 1, keyed),
                        args,
                    };
                    let ghost was = p.plans@;
                    put_pair(&mut p.plans, key, plan);
                    assert(plans_of(p.plans@) =~= plans_of(was).insert(key, plan@));
                }
            },
        }
    } else if vars.len() == c.tys.len() {
        match find_outer(g.outer, &vars) {
            Some(v) => {
                ctx.errors.push(ambiguous_error(g, c.class, TyVid(v), Ghost(r)));
            },
            None => {
                let kept = Constraint::new(c.class, var_list(&vars));
                assert(kept@.tys =~= as_vars(vars@));
                keep_constraint(p, kept);
            },
        }
    } else {
        let v = if vars.len() > 0 {
            TyVid(vars.at(0))
        } else {
            c.tys[0]
        };
        ctx.errors.push(ambiguous_error(g, c.class, v, Ghost(r)));
    }
    assert(state(*p, *ctx) =~= classify(r, s0, c@, views(rs@)));
}

/// Solves a constraint over several variables.
fn dispatch_multi_constraint(ctx: &mut InferCtx, g: &Ground, p: &mut Progress, c: &Constraint)
    requires
        old(ctx).wf(),
        c@.tys.len() > 1,
        g.instances.fn_arities.wf(),
        fundeps_fit(fundeps_of(g.classes.classes@, c.class), c@),
        old(ctx).has_room(
            pred_cost(g.instances.entries@, fundeps_of(g.classes.classes@, c.class)) as int,
        ),
    ensures
        final(ctx).wf(),
        state(*final(p), *final(ctx)) == step_multi(
            g.rules(old(ctx).tycon_decls@),
            state(*old(p), *old(ctx)),
            c@,
        ),
        final(ctx).table().types.len() <= old(ctx).table().types.len() + pred_cost(
            g.instances.entries@,
            fundeps_of(g.classes.classes@, c.class),
        ),
        *final(ctx) == (InferCtx {
            vars: final(ctx).vars,
            errors: final(ctx).errors,
            ..*old(ctx)
        }),
{
    let ghost r = g.rules(ctx.tycon_decls@);
    let ghost s0 = state(*p, *ctx);
    if let Some(b) = g.builtins {
        if improve_via_fundeps(ctx, g.instances, g.classes, g.span, c, b) {
            assert(state(*p, *ctx) =~= step_multi(r, s0, c@));
            return;
        }
    }
    assert(state(*p, *ctx) =~= (Solver { table: determined(r, s0.table, c@).0, ..s0 }));
    let rs = resolve_tys(ctx, &c.tys);
    classify_constraint(ctx, g, p, c, &rs);
}

/// `t` is closer to the end than `s`.
pub open spec fn closer(r: Rules, vs: Seq<TyVid>, s: Solver, t: Solver) -> bool {
    ||| multis(t.work) < multis(s.work)
    ||| multis(t.work) == multis(s.work) && unseen(r.es, vs, t.table, t.visited) < unseen(
        r.es,
        vs,
        s.table,
        s.visited,
    )
    ||| multis(t.work) == multis(s.work) && unseen(r.es, vs, t.table, t.visited) <= unseen(
        r.es,
        vs,
        s.table,
        s.visited,
    ) && t.work.len() < s.work.len()
}

/// What a step leaves in order, and that it comes closer to the end.
proof fn step_in_order(r: Rules, s: Solver, vs: Seq<TyVid>)
    requires
        in_order(r, s),
        about_vars(s.work, vs),
        s.work.len() > 0,
        solved(step(r, s).table),
        s.work.last().tys.len() == 1 ==> step(r, s).table == s.table,
        step(r, s).table.types.len() <= s.table.types.len() + if s.work.last().tys.len() > 1 {
            pred_cost(r.es, fundeps_of(r.cs, s.work.last().class))
        } else {
            0
        },
    ensures
        in_order(r, step(r, s)),
        step(r, s).table.types.len() + work_cost(r, step(r, s).work) <= s.table.types.len()
            + work_cost(r, s.work),
        about_vars(step(r, s).work, vs),
        closer(r, vs, s, step(r, s)),
{
    let c = s.work.last();
    let s1 = Solver { work: s.work.drop_last(), ..s };
    let t = step(r, s);
    assert(solvable(r, s.work[s.work.len() - 1]));
    assert forall|i: int| 0 <= i < s1.work.len() implies solvable(r, #[trigger] s1.work[i]) by {
        assert(s1.work[i] == s.work[i]);
    }
    assert forall|i: int|
        0 <= i < s1.work.len() && (#[trigger] s1.work[i]).tys.len() == 1 implies vs.contains(
        s1.work[i].tys[0],
    ) by {
        assert(s1.work[i] == s.work[i]);
    }
    if c.tys.len() == 1 {
        assert(vs.contains(s.work[s.work.len() - 1].tys[0]));
        let ty = resolve(s.table, Ty::Var(c.tys[0]));
        let id = match ty {
            Ty::Con(id, _) => Some(id),
            Ty::Fn { params, ret, caps } => r.arities.con(params.len()),
            _ => None,
        };
        if id is Some {
            let key = (c.class.0, ty);
            if !s.visited.contains(key) {
                unseen_le(r.es, vs, s.table, s.visited, key);
                if find_instance(r.es, c.class, seq![id->0]) is Some {
                    unseen_lt(r.es, vs, s.table, s.visited, c.class, id->0, c.tys[0]);
                    queued_ok(
                        r,
                        s1.work,
                        superclasses_of(r.cs, c.class),
                        s.visited.push(key),
                        ty,
                        c.tys[0],
                        vs,
                    );
                }
            }
        }
    }
}

/// `t` is reached from the start, and the result is what it holds.
pub open spec fn solved_to(
    r: Rules,
    s: Solver,
    retained: Seq<Pred>,
    plans: Map<(u32, u32), Plan>,
    ds: Seq<Diag>,
    tb: Table,
) -> bool {
    exists|t: Solver| #[trigger]
        solves(r, s, t) && t.retained == retained && t.plans == plans && t.diags == ds && t.table
            == tb
}

/// Solves the deferred constraints: each is satisfied by an instance, kept for
/// generalisation, or reported. Gives the constraints to generalise over and
/// the plans.
#[must_use]
pub fn solve_constraints(
    ctx: &mut InferCtx,
    instance_env: &InstanceEnv,
    class_table: &ClassTable,
    env_snap_ty: &FxHashSet<u32>,
    scc_span: Span,
    builtins: Option<&BuiltinTyCons>,
) -> (r: (Vec<Constraint>, DictResolution))
    requires
        old(ctx).wf(),
        instance_env.fn_arities.wf(),
        forall|i: int|
            0 <= i < old(ctx).deferred_constraints@.len() ==> solvable(
                rules_of(
                    *instance_env,
                    *class_table,
                    old(ctx).tycon_decls@,
                    env_snap_ty@,
                    scc_span,
                    builtins,
                ),
                (#[trigger] old(ctx).deferred_constraints@[i])@,
            ),
        old(ctx).has_room(
            work_cost(
                rules_of(
                    *instance_env,
                    *class_table,
                    old(ctx).tycon_decls@,
                    env_snap_ty@,
                    scc_span,
                    builtins,
                ),
                preds(old(ctx).deferred_constraints@),
            ) as int,
        ),
    ensures
        final(ctx).wf(),
        solved_to(
            rules_of(
                *instance_env,
                *class_table,
                old(ctx).tycon_decls@,
                env_snap_ty@,
                scc_span,
                builtins,
            ),
            initial(
                preds(old(ctx).deferred_constraints@),
                diags(old(ctx).errors@),
                old(ctx).table(),
            ),
            preds(r.0@),
            plans_of(r.1@),
            diags(final(ctx).errors@),
            final(ctx).table(),
        ),
        final(ctx).deferred_constraints@.len() == 0,
        final(ctx).table().types.len() <= old(ctx).table().types.len() + work_cost(
            rules_of(
                *instance_env,
                *class_table,
                old(ctx).tycon_decls@,
                env_snap_ty@,
                scc_span,
                builtins,
            ),
            preds(old(ctx).deferred_constraints@),
        ),
        *final(ctx) == (InferCtx {
            vars: final(ctx).vars,
            errors: final(ctx).errors,
            deferred_constraints: final(ctx).deferred_constraints,
            ..*old(ctx)
        }),
{
    let ghost r = rules_of(
        *instance_env,
        *class_table,
        ctx.tycon_decls@,
        env_snap_ty@,
        scc_span,
        builtins,
    );
    let ghost s0 = initial(preds(ctx.deferred_constraints@), diags(ctx.errors@), ctx.table());
    let mut work: Vec<Constraint> = Vec::new();
    std::mem::swap(&mut work, &mut ctx.deferred_constraints);
    let g = Ground {
        instances: instance_env,
        classes: class_table,
        outer: env_snap_ty,
        span: scc_span,
        builtins,
    };
    let mut p = Progress {
        work,
        visited: Vec::new(),
        retained: Vec::new(),
        plans: FxHashMap::default(),
    };
    let ghost mut n: nat = 0;
    let ghost vs = first_vars(s0.work);
    proof {
        first_vars_cover(s0.work);
    }
    let ghost drained = ctx.deferred_constraints;
    assert(state(p, *ctx) =~= s0);
    while p.work.len() > 0
        invariant
            ctx.wf(),
            instance_env.fn_arities.wf(),
            g.rules(ctx.tycon_decls@) == r,
            g.instances == instance_env,
            r.tycons == ctx.tycon_decls@,
            run(r, s0, n) == state(p, *ctx),
            in_order(r, state(p, *ctx)),
            about_vars(preds(p.work@), vs),
            ctx.table().types.len() + work_cost(r, preds(p.work@)) <= s0.table.types.len()
                + work_cost(r, s0.work),
            *ctx == (InferCtx {
                vars: ctx.vars,
                errors: ctx.errors,
                deferred_constraints: drained,
                ..*old(ctx)
            }),
        decreases
            multis(preds(p.work@)),
            unseen(r.es, vs, ctx.table(), looked_up(p.visited@)),
            p.work@.len(),
    {
        let ghost s = state(p, *ctx);
        let ghost before = *ctx;
        match p.work.pop() {
            None => {},
            Some(c) => {
                let ghost s1 = state(p, *ctx);
                assert(s.work.last() == c@);
                assert(s1.work =~= s.work.drop_last());
                assert(s1 =~= (Solver { work: s.work.drop_last(), ..s }));
                assert(solvable(r, s.work[s.work.len() - 1]));
                if c.tys.len() == 1 {
                    let resolved = ctx.deep_resolve(&Type::Var(c.tys[0]));
                    dispatch_constraint(ctx, &g, &mut p, &c, &resolved);
                } else {
                    dispatch_multi_constraint(ctx, &g, &mut p, &c);
                }
                proof {
                    assert(state(p, *ctx) == step(r, s));
                    run_more(r, s0, n);
                    n = n + 1;
                    step_in_order(r, s, vs);
                }
            },
        }
    }
    proof {
        assert(solves(r, s0, state(p, *ctx)));
    }
    (p.retained, p.plans)
}

/// Variables that a dictionary can come from.
pub open spec fn satisfiable(c: Pred, known: spec_fn(u32) -> bool) -> bool {
    exists|i: int| 0 <= i < c.tys.len() && known((#[trigger] c.tys[i]).0)
}

/// The classes of the dictionaries that the arguments of a plan forward and
/// that nothing can give.
pub open spec fn missing_elements(p: Plan, known: spec_fn(u32) -> bool) -> Seq<ClassId>
    decreases p,
{
    match p {
        Plan::Static { class, info, tycon, extra, args } => missing_among(args, known),
        Plan::Forward(_) => Seq::empty(),
    }
}

pub open spec fn missing_among(args: Seq<Plan>, known: spec_fn(u32) -> bool) -> Seq<ClassId>
    decreases args,
{
    if args.len() == 0 {
        Seq::empty()
    } else {
        let before = missing_among(args.drop_last(), known);
        match args[args.len() - 1] {
            Plan::Forward(c) => if satisfiable(c, known) {
                before
            } else {
                before.push(c.class)
            },
            Plan::Static { class, info, tycon, extra, args: inner } => before + missing_among(
                inner,
                known,
            ),
        }
    }
}

/// The report of an element type that nothing determines.
pub open spec fn ambiguous_element(cs: Seq<ClassInfo>, class: ClassId, span: Span) -> Diag {
    Diag::Ambiguous {
        class: class_name(cs, class),
        ty_var: Desc::Text("the element type"@),
        span,
    }
}

/// The classes missing among the plans of the given keys.
pub open spec fn missing_in(
    plans: Map<(u32, u32), Plan>,
    ks: Seq<(u32, u32)>,
    known: spec_fn(u32) -> bool,
) -> Seq<ClassId>
    decreases ks.len(),
{
    if ks.len() == 0 {
        Seq::empty()
    } else {
        missing_in(plans, ks.drop_last(), known) + missing_elements(plans[ks.last()], known)
    }
}

fn is_satisfiable(c: &Constraint, generalizable: &FxHashSet<u32>, outer: &FxHashSet<u32>) -> (r: bool)
    ensures
        r == satisfiable(c@, |v: u32| generalizable@.contains(v) || outer@.contains(v)),
{
    let ghost known = |v: u32| generalizable@.contains(v) || outer@.contains(v);
    let mut i: usize = 0;
    while i < c.tys.len()
        invariant
            i <= c.tys@.len(),
            known == (|v: u32| generalizable@.contains(v) || outer@.contains(v)),
            forall|k: int| 0 <= k < i ==> !known((#[trigger] c.tys@[k]).0),
        decreases c.tys@.len() - i,
    {
        let v: u32 = c.tys[i].0;
        if contains_id(generalizable, v) || contains_id(outer, v) {
            assert(known(c@.tys[i as int].0));
            return true;
        }
        i = i + 1;
    }
    assert forall|k: int| 0 <= k < c@.tys.len() implies !known((#[trigger] c@.tys[k]).0) by {
        assert(!known(c.tys@[k].0));
    }
    false
}

/// Collects the classes of the dictionaries that a list of plans forwards and
/// that nothing can give.
fn collect_ambiguous_element_vars(
    args: &Vec<DictPlan>,
    generalizable: &FxHashSet<u32>,
    outer: &FxHashSet<u32>,
    out: &mut Vec<ClassId>,
)
    ensures
        final(out)@ == old(out)@ + missing_among(
            plan_views(args@),
            |v: u32| generalizable@.contains(v) || outer@.contains(v),
        ),
    decreases args,
{
    let ghost known = |v: u32| generalizable@.contains(v) || outer@.contains(v);
    let ghost all = plan_views(args@);
    let mut i: usize = 0;
    assert(all.take(0) =~= Seq::empty());
    assert(out@ =~= old(out)@ + Seq::empty());
    broadcast use {crate::plans::plan_views_len, crate::plans::plan_views_index};

    while i < args.len()
        invariant
            i <= args@.len(),
            known == (|v: u32| generalizable@.contains(v) || outer@.contains(v)),
            all == plan_views(args@),
            out@ == old(out)@ + missing_among(all.take(i as int), known),
        decreases args@.len() - i,
    {
        assert(all.take(i + 1).drop_last() =~= all.take(i as int));
        assert(all.take(i + 1)[i as int] == args@[i as int]@);
        match &args[i] {
            DictPlan::Forward(c) => {
                if !is_satisfiable(c, generalizable, outer) {
                    out.push(c.class);
                }
            },
            DictPlan::Static { class, info, tycon, extra_head, args: inner } => {
                assert(args@[i as int]@ == Plan::Static {
                    class: *class,
                    info: info@,
                    tycon: *tycon,
                    extra: extra_head@,
                    args: plan_views(inner@),
                });
                collect_ambiguous_element_vars(inner, generalizable, outer, out);
            },
        }
        i = i + 1;
        assert(out@ =~= old(out)@ + missing_among(all.take(i as int), known));
    }
    assert(all.take(i as int) =~= all);
}

/// Reports every dictionary of an element type that nothing determines. The
/// plans are gone through in an order that is left open.
pub fn report_ambiguous_element_dicts(
    ctx: &mut InferCtx,
    class_table: &ClassTable,
    dict_resolution: &DictResolution,
    generalizable: &FxHashSet<u32>,
    outer: &FxHashSet<u32>,
    scc_span: Span,
)
    ensures
        exists|ks: Seq<(u32, u32)>| #[trigger]
            lists_keys(ks, dict_resolution@) && diags(final(ctx).errors@) == diags(
                old(ctx).errors@,
            ) + missing_in(
                plans_of(dict_resolution@),
                ks,
                |v: u32| generalizable@.contains(v) || outer@.contains(v),
            ).map_values(|c: ClassId| ambiguous_element(class_table.classes@, c, scc_span)),
        *final(ctx) == (InferCtx { errors: final(ctx).errors, ..*old(ctx) }),
{
    let ghost known = |v: u32| generalizable@.contains(v) || outer@.contains(v);
    let ghost plans = plans_of(dict_resolution@);
    let values = list_values(dict_resolution);
    let ghost ks = choose|ks: Seq<(u32, u32)>| #[trigger]
        lists_keys(ks, dict_resolution@) && ks.len() == values@.len() && forall|i: int|
            0 <= i < ks.len() ==> *(#[trigger] values@[i]) == dict_resolution@[ks[i]];
    let mut classes: Vec<ClassId> = Vec::new();
    let mut i: usize = 0;
    assert(ks.take(0) =~= Seq::empty());
    assert(classes@ =~= Seq::empty());
    while i < values.len()
        invariant
            i <= values@.len(),
            lists_keys(ks, dict_resolution@),
            ks.len() == values@.len(),
            forall|k: int|
                0 <= k < ks.len() ==> *(#[trigger] values@[k]) == dict_resolution@[ks[k]],
            known == (|v: u32| generalizable@.contains(v) || outer@.contains(v)),
            plans == plans_of(dict_resolution@),
            classes@ == missing_in(plans, ks.take(i as int), known),
        decreases values@.len() - i,
    {
        assert(ks.take(i + 1).drop_last() =~= ks.take(i as int));
        assert(ks.contains(ks[i as int]));
        assert(plans[ks[i as int]] == values@[i as int]@);
        match values[i] {
            DictPlan::Forward(_) => {
                assert(classes@ =~= classes@ + Seq::empty());
            },
            DictPlan::Static { class, info, tycon, extra_head, args } => {
                assert(values@[i as int]@ == Plan::Static {
                    class: *class,
                    info: info@,
                    tycon: *tycon,
                    extra: extra_head@,
                    args: plan_views(args@),
                });
                collect_ambiguous_element_vars(args, generalizable, outer, &mut classes);
            },
        }
        i = i + 1;
    }
    assert(ks.take(i as int) =~= ks);
    let ghost told = |c: ClassId| ambiguous_element(class_table.classes@, c, scc_span);
    let ghost start = diags(ctx.errors@);
    let mut k: usize = 0;
    assert(start + classes@.take(0).map_values(told) =~= start);
    while k < classes.len()
        invariant
            k <= classes@.len(),
            told == (|c: ClassId| ambiguous_element(class_table.classes@, c, scc_span)),
            diags(ctx.errors@) == start + classes@.take(k as int).map_values(told),
            *ctx == (InferCtx { errors: ctx.errors, ..*old(ctx) }),
        decreases classes@.len() - k,
    {
        ctx.errors.push(
            TypeError::AmbiguousConstraint {
                class: class_table.name_of(classes[k]),
                ty_var: TypeDesc::Text("the element type".to_owned()),
                span: scc_span,
            },
        );
        k = k + 1;
        assert(diags(ctx.errors@) =~= start + classes@.take(k as int).map_values(told));
    }
    assert(classes@.take(k as int) =~= classes@);
    assert(lists_keys(ks, dict_resolution@));
}

/// What solving never undoes: diagnostics stay, plans stay, and constraints
/// stay kept.
pub open spec fn builds_on(s: Solver, t: Solver) -> bool {
    &&& s.diags.is_prefix_of(t.diags)
    &&& s.retained.is_prefix_of(t.retained)
    &&& forall|k: (u32, u32)| #[trigger]
        s.plans.dom().contains(k) ==> t.plans.dom().contains(k) && t.plans[k] == s.plans[k]
}

/// What holds of the constraints that are kept: each is there once, none has a
/// variable of an enclosing scope, and each has a plan.
pub open spec fn kept_well(r: Rules, s: Solver) -> bool {
    &&& s.retained.no_duplicates()
    &&& forall|i: int|
        0 <= i < s.retained.len() ==> within_scope(r.outer, #[trigger] s.retained[i])
            && s.plans.dom().contains((s.retained[i].class.0, s.retained[i].tys[0].0))
}

/// None of the variables of a constraint belongs to an enclosing scope.
pub open spec fn within_scope(outer: Set<u32>, c: Pred) -> bool {
    forall|j: int| 0 <= j < c.tys.len() ==> !outer.contains((#[trigger] c.tys[j]).0)
}

proof fn outer_none(outer: Set<u32>, vars: Seq<u32>)
    requires
        first_outer(outer, vars) is None,
    ensures
        forall|j: int| 0 <= j < vars.len() ==> !outer.contains(#[trigger] vars[j]),
    decreases vars.len(),
{
    if vars.len() > 0 {
        outer_none(outer, vars.skip(1));
        assert forall|j: int| 0 <= j < vars.len() implies !outer.contains(#[trigger] vars[j]) by {
            if j > 0 {
                assert(vars.skip(1)[j - 1] == vars[j]);
            }
        }
    }
}

proof fn keep_builds(r: Rules, s: Solver, c: Pred)
    requires
        kept_well(r, s),
        within_scope(r.outer, c),
    ensures
        builds_on(s, keep(s, c)),
        kept_well(r, keep(s, c)),
{
    let t = keep(s, c);
    assert forall|i: int| 0 <= i < t.retained.len() implies within_scope(
        r.outer,
        #[trigger] t.retained[i],
    ) && t.plans.dom().contains((t.retained[i].class.0, t.retained[i].tys[0].0)) by {
        if i < s.retained.len() {
            assert(t.retained[i] == s.retained[i]);
        }
    }
    assert forall|i: int, j: int|
        0 <= i < t.retained.len() && 0 <= j < t.retained.len() && i != j implies t.retained[i]
        != t.retained[j] by {
        if !s.retained.contains(c) {
            if i < s.retained.len() && j < s.retained.len() {
                assert(s.retained[i] != s.retained[j]);
            } else if i < s.retained.len() {
                assert(s.retained.contains(s.retained[i]));
            } else if j < s.retained.len() {
                assert(s.retained.contains(s.retained[j]));
            }
        }
    }
}

proof fn step_builds(r: Rules, s: Solver)
    requires
        kept_well(r, s),
        s.work.len() > 0,
    ensures
        builds_on(s, step(r, s)),
        kept_well(r, step(r, s)),
{
    let c = s.work.last();
    let s1 = Solver { work: s.work.drop_last(), ..s };
    if c.tys.len() == 1 {
        let t = resolve(s.table, Ty::Var(c.tys[0]));
        if t is Var && !r.outer.contains((t->Var_0).0) {
            keep_builds(r, s1, single(c.class, t->Var_0));
        }
    } else {
        let (tb, d) = determined(r, s.table, c);
        if d is None {
            let s2 = Solver { table: tb, ..s1 };
            let rs = resolved_tys(tb, c.tys);
            let heads = head_cons(r.arities, rs);
            let vars = head_vars(rs);
            if heads.len() != c.tys.len() && vars.len() == c.tys.len() && first_outer(
                r.outer,
                vars,
            ) is None {
                outer_none(r.outer, vars);
                keep_builds(r, s2, Pred { class: c.class, tys: as_vars(vars) });
            }
        }
    }
}

proof fn run_builds(r: Rules, s: Solver, n: nat)
    requires
        kept_well(r, s),
    ensures
        builds_on(s, run(r, s, n)),
        kept_well(r, run(r, s, n)),
    decreases n,
{
    if n > 0 && s.work.len() > 0 {
        step_builds(r, s);
        let m = step(r, s);
        run_builds(r, m, (n - 1) as nat);
        let t = run(r, s, n);
        assert forall|k: (u32, u32)| #[trigger] s.plans.dom().contains(k) implies t.plans.dom().contains(
            k,
        ) && t.plans[k] == s.plans[k] by {
            assert(m.plans.dom().contains(k));
        }
    }
}

/// Solving nothing changes nothing: no constraint is kept, no plan is made and
/// nothing is reported.
pub proof fn nothing_to_solve(r: Rules, ds: Seq<Diag>, tb: Table, t: Solver)
    requires
        solves(r, initial(Seq::empty(), ds, tb), t),
    ensures
        t == initial(Seq::empty(), ds, tb),
{
}

proof fn run_at_end(r: Rules, s: Solver, m: nat, n: nat)
    requires
        run(r, s, m).work.len() == 0,
        m <= n,
    ensures
        run(r, s, n) == run(r, s, m),
    decreases m,
{
    if m > 0 && s.work.len() > 0 {
        run_at_end(r, step(r, s), (m - 1) as nat, (n - 1) as nat);
    }
}

/// The same constraints are always solved in the same way.
pub proof fn solving_is_determined(r: Rules, s: Solver, t: Solver, u: Solver)
    requires
        solves(r, s, t),
        solves(r, s, u),
    ensures
        t == u,
{
    let m = choose|n: nat| #[trigger] run(r, s, n) == t;
    let n = choose|n: nat| #[trigger] run(r, s, n) == u;
    if m <= n {
        run_at_end(r, s, m, n);
    } else {
        run_at_end(r, s, n, m);
    }
}

/// A constraint is kept for generalisation at most once, over variables of this
/// scope alone, and with a plan.
pub proof fn retained_are_generalisable(r: Rules, work: Seq<Pred>, ds: Seq<Diag>, tb: Table, t: Solver)
    requires
        solves(r, initial(work, ds, tb), t),
    ensures
        kept_well(r, t),
{
    let s = initial(work, ds, tb);
    let n = choose|n: nat| #[trigger] run(r, s, n) == t;
    run_builds(r, s, n);
}

/// Solving only adds to the diagnostics, the plans and the constraints that
/// are kept.
pub proof fn solving_only_adds(r: Rules, s: Solver, t: Solver)
    requires
        kept_well(r, s),
        solves(r, s, t),
    ensures
        builds_on(s, t),
{
    let n = choose|n: nat| #[trigger] run(r, s, n) == t;
    run_builds(r, s, n);
}

proof fn step_learns(r: Rules, s: Solver, vs: Seq<TyVid>)
    requires
        in_order(r, s),
        about_vars(s.work, vs),
        s.work.len() > 0,
    ensures
        in_order(r, step(r, s)),
        refines(s.table, step(r, s).table),
        about_vars(step(r, s).work, vs),
        closer(r, vs, s, step(r, s)),
{
    let c = s.work.last();
    refines_refl(s.table);
    if c.tys.len() > 1 {
        let fds = fundeps_of(r.cs, c.class);
        match r.builtins {
            Some(b) => {
                improving_loses_nothing(
                    s.table,
                    b,
                    r.tycons,
                    r.es,
                    c,
                    resolved_tys(s.table, c.tys),
                    fds,
                    fds.len(),
                    r.span,
                );
            },
            None => {},
        }
    } else {
        assert(solvable(r, s.work[s.work.len() - 1]));
    }
    step_in_order(r, s, vs);
}

proof fn run_learns(r: Rules, s: Solver, n: nat)
    requires
        in_order(r, s),
    ensures
        refines(s.table, run(r, s, n).table),
    decreases n,
{
    refines_refl(s.table);
    if n > 0 && s.work.len() > 0 {
        first_vars_cover(s.work);
        step_learns(r, s, first_vars(s.work));
        run_learns(r, step(r, s), (n - 1) as nat);
        refines_trans(s.table, step(r, s).table, run(r, s, n).table);
    }
}

/// Solving takes nothing away from what is known of the variables.
pub proof fn solving_loses_nothing(r: Rules, s: Solver, t: Solver)
    requires
        in_order(r, s),
        solves(r, s, t),
    ensures
        refines(s.table, t.table),
{
    let n = choose|n: nat| #[trigger] run(r, s, n) == t;
    run_learns(r, s, n);
}

/// A class is required of a type at most once: solving the requirement marks it,
/// and from then on it is passed over.
pub proof fn requirements_are_met_once(r: Rules, s: Solver, id: TyConId, args: Seq<Ty>)
    requires
        s.work.len() > 0,
        s.work.last().tys.len() == 1,
        resolve(s.table, Ty::Var(s.work.last().tys[0])) == Ty::Con(id, args),
    ensures
        step(r, s).visited.contains((s.work.last().class.0, Ty::Con(id, args))),
        s.visited.contains((s.work.last().class.0, Ty::Con(id, args))) ==> step(r, s) == (Solver {
            work: s.work.drop_last(),
            ..s
        }),
{
    one_more_seen(s.visited, (s.work.last().class.0, Ty::Con(id, args)));
}

/// A class that was not required of a type before is looked up for the whole
/// type: a missing instance is reported, and so is everything that the context
/// of the instance asks for and that is missing.
pub proof fn whole_types_are_looked_at(r: Rules, s: Solver, id: TyConId, args: Seq<Ty>)
    requires
        s.work.len() > 0,
        s.work.last().tys.len() == 1,
        resolve(s.table, Ty::Var(s.work.last().tys[0])) == Ty::Con(id, args),
        !s.visited.contains((s.work.last().class.0, Ty::Con(id, args))),
    ensures
        step(r, s).diags == match find_instance(r.es, s.work.last().class, seq![id]) {
            None => s.diags.push(no_instance(r.cs, s.work.last().class, id, r.span)),
            Some(e) => s.diags + context_plans(
                r.es,
                r.cs,
                r.span,
                e.info@,
                Ty::Con(id, args),
                ctx_len(e.info@),
            ).1,
        },
{
}

proof fn solving_ends_over(r: Rules, s: Solver, vs: Seq<TyVid>)
    requires
        in_order(r, s),
        about_vars(s.work, vs),
    ensures
        exists|t: Solver| solves(r, s, t),
    decreases multis(s.work), unseen(r.es, vs, s.table, s.visited), s.work.len(),
{
    if s.work.len() == 0 {
        assert(run(r, s, 0) == s);
        assert(solves(r, s, s));
    } else {
        step_learns(r, s, vs);
        solving_ends_over(r, step(r, s), vs);
        let t = choose|t: Solver| solves(r, step(r, s), t);
        let n = choose|n: nat| #[trigger] run(r, step(r, s), n) == t;
        assert(run(r, s, n + 1) == t);
        assert(solves(r, s, t));
    }
}

/// Solving comes to an end.
pub proof fn solving_ends(r: Rules, s: Solver)
    requires
        in_order(r, s),
    ensures
        exists|t: Solver| solves(r, s, t),
{
    first_vars_cover(s.work);
    solving_ends_over(r, s, first_vars(s.work));
}

} // verus!

use vstd::prelude::*;

use crate::classes::{
    class_name, class_named, find_class, find_instance, fundeps_of, superclasses_of, ClassInfo,
    FnArities, InstanceEntry,
};
use crate::diag::Diag;
use crate::fundeps::{is_composite, resolved_tys};
use crate::plans::Plan;
use crate::solve::{
    as_cons, as_vars, determined, first_outer, head_cons, head_vars, initial, queued, run, solves,
    solving_only_adds, step, Rules, Solver,
};
use crate::table::{resolve, Table};
use crate::types::{single, ClassId, Pred, Ty, TyConDecl, TyConId, TyVid};

verus! {

/// There is an instance of a class for a head.
pub open spec fn has_instance(es: Seq<InstanceEntry>, class: ClassId, key: Seq<TyConId>) -> bool {
    exists|i: int| 0 <= i < es.len() && (#[trigger] es[i]).class == class && es[i].key@ == key
}

/// An instance is looked up by its class and all of its head: what is found is
/// the first such instance, and something is found where there is one.
pub proof fn instances_are_found(es: Seq<InstanceEntry>, class: ClassId, key: Seq<TyConId>)
    ensures
        find_instance(es, class, key) is Some <==> has_instance(es, class, key),
        find_instance(es, class, key) matches Some(e) ==> e.class == class && e.key@ == key
            && exists|i: int|
            0 <= i < es.len() && #[trigger] es[i] == e && forall|j: int|
                0 <= j < i ==> !((#[trigger] es[j]).class == class && es[j].key@ == key),
    decreases es.len(),
{
    if es.len() > 0 {
        let rest = es.skip(1);
        instances_are_found(rest, class, key);
        if es[0].class == class && es[0].key@ == key {
            assert(es[0] == es[0]);
        } else {
            if has_instance(es, class, key) {
                let i = choose|i: int|
                    0 <= i < es.len() && (#[trigger] es[i]).class == class && es[i].key@ == key;
                assert(rest[i - 1] == es[i]);
            }
            if let Some(e) = find_instance(rest, class, key) {
                let i = choose|i: int|
                    0 <= i < rest.len() && #[trigger] rest[i] == e && forall|j: int|
                        0 <= j < i ==> !((#[trigger] rest[j]).class == class && rest[j].key@
                            == key);
                assert(es[i + 1] == e);
                assert forall|j: int| 0 <= j < i + 1 implies !((#[trigger] es[j]).class == class
                    && es[j].key@ == key) by {
                    if j > 0 {
                        assert(rest[j - 1] == es[j]);
                    }
                }
            }
        }
    }
}

/// The constructor that a type has for a head: its own, and for a function the
/// one that stands for its arity.
pub open spec fn head_of(arities: FnArities, t: Ty) -> Option<TyConId> {
    match t {
        Ty::Con(id, _) => Some(id),
        Ty::Fn { params, ret: _, caps: _ } => if params.len() < arities.count {
            Some(TyConId((arities.base + params.len()) as u32))
        } else {
            None
        },
        _ => None,
    }
}

/// `s` is `t` with one more diagnostic, that no instance of a class was found.
pub open spec fn misses_instance(r: Rules, s: Seq<Diag>, t: Seq<Diag>, class: ClassId) -> bool {
    &&& t.len() == s.len() + 1
    &&& t.drop_last() == s
    &&& t.last() matches Diag::NoInstance { class: c, ty: _, span, hint: _ } && c == class_name(
        r.cs,
        class,
    ) && span == r.span
}

/// `s` is `t` with one more diagnostic, that a constraint of a class is
/// ambiguous.
pub open spec fn is_ambiguous(r: Rules, s: Seq<Diag>, t: Seq<Diag>, class: ClassId) -> bool {
    &&& t.len() == s.len() + 1
    &&& t.drop_last() == s
    &&& t.last() matches Diag::Ambiguous { class: c, ty_var: _, span } && c == class_name(
        r.cs,
        class,
    ) && span == r.span
}

/// The heads of types that all have one.
pub open spec fn heads_of(arities: FnArities, ts: Seq<Ty>) -> Seq<TyConId> {
    Seq::new(ts.len(), |i: int| head_of(arities, ts[i])->0)
}

proof fn heads_listed(arities: FnArities, rs: Seq<Ty>)
    requires
        arities.base + arities.count <= u32::MAX,
    ensures
        head_cons(arities, rs).len() <= rs.len(),
        head_cons(arities, rs).len() == rs.len() <==> forall|i: int|
            0 <= i < rs.len() ==> head_of(arities, #[trigger] rs[i]) is Some,
        head_cons(arities, rs).len() == rs.len() ==> as_cons(head_cons(arities, rs)) == heads_of(
            arities,
            rs,
        ),
    decreases rs.len(),
{
    if rs.len() > 0 {
        let before = rs.drop_last();
        heads_listed(arities, before);
        let n = rs.len() - 1;
        assert(rs[n] == rs.last());
        assert forall|i: int| 0 <= i < n implies before[i] == rs[i] by {}
        if head_cons(arities, rs).len() == rs.len() {
            assert forall|i: int| 0 <= i < rs.len() implies head_of(arities, #[trigger] rs[i]) is Some by {
                if i < n {
                    assert(head_of(arities, before[i]) is Some);
                }
            }
            assert(as_cons(head_cons(arities, rs)) =~= heads_of(arities, rs)) by {
                assert forall|i: int| 0 <= i < rs.len() implies as_cons(head_cons(arities, rs))[i]
                    == heads_of(arities, rs)[i] by {
                    if i < n {
                        assert(as_cons(head_cons(arities, before))[i] == heads_of(
                            arities,
                            before,
                        )[i]);
                    }
                }
            }
        }
        if forall|i: int| 0 <= i < rs.len() ==> head_of(arities, #[trigger] rs[i]) is Some {
            assert forall|i: int| 0 <= i < before.len() implies head_of(
                arities,
                #[trigger] before[i],
            ) is Some by {
                assert(head_of(arities, rs[i]) is Some);
            }
            assert(head_of(arities, rs[n]) is Some);
        }
    } else {
        assert(as_cons(head_cons(arities, rs)) =~= heads_of(arities, rs));
    }
}

proof fn vars_listed(rs: Seq<Ty>)
    ensures
        head_vars(rs).len() <= rs.len(),
        head_vars(rs).len() == rs.len() <==> forall|i: int|
            0 <= i < rs.len() ==> (#[trigger] rs[i]) is Var,
        head_vars(rs).len() == rs.len() ==> as_vars(head_vars(rs)) == Seq::new(
            rs.len(),
            |i: int| rs[i]->Var_0,
        ),
    decreases rs.len(),
{
    if rs.len() > 0 {
        let before = rs.drop_last();
        vars_listed(before);
        let n = rs.len() - 1;
        assert(rs[n] == rs.last());
        if head_vars(rs).len() == rs.len() {
            assert forall|i: int| 0 <= i < rs.len() implies (#[trigger] rs[i]) is Var by {
                if i < n {
                    assert(before[i] is Var);
                }
            }
            assert(as_vars(head_vars(rs)) =~= Seq::new(rs.len(), |i: int| rs[i]->Var_0)) by {
                assert forall|i: int| 0 <= i < rs.len() implies as_vars(head_vars(rs))[i]
                    == rs[i]->Var_0 by {
                    if i < n {
                        assert(as_vars(head_vars(before))[i] == before[i]->Var_0);
                    }
                }
            }
        }
        if forall|i: int| 0 <= i < rs.len() ==> (#[trigger] rs[i]) is Var {
            assert forall|i: int| 0 <= i < before.len() implies (#[trigger] before[i]) is Var by {
                assert(rs[i] is Var);
            }
            assert(rs[n] is Var);
        }
    } else {
        assert(as_vars(head_vars(rs)) =~= Seq::new(rs.len(), |i: int| rs[i]->Var_0));
    }
}

proof fn outer_found(outer: Set<u32>, vars: Seq<u32>)
    ensures
        first_outer(outer, vars) is Some <==> exists|i: int|
            0 <= i < vars.len() && outer.contains(#[trigger] vars[i]),
    decreases vars.len(),
{
    if vars.len() > 0 {
        outer_found(outer, vars.skip(1));
        if exists|i: int| 0 <= i < vars.len() && outer.contains(#[trigger] vars[i]) {
            let i = choose|i: int| 0 <= i < vars.len() && outer.contains(#[trigger] vars[i]);
            if i > 0 {
                assert(vars.skip(1)[i - 1] == vars[i]);
            }
        }
        if first_outer(outer, vars.skip(1)) is Some {
            let i = choose|i: int|
                0 <= i < vars.skip(1).len() && outer.contains(#[trigger] vars.skip(1)[i]);
            assert(vars[i + 1] == vars.skip(1)[i]);
        }
    }
}

/// A constraint over several variables that stand for types with constructors is
/// answered: by a plan where an instance is for all of the head, or where the
/// head starts with a composite join and an instance is for that alone, and
/// otherwise by the diagnostic that there is none.
pub proof fn concrete_heads_are_answered(r: Rules, s: Solver, tb: Table)
    requires
        s.work.len() > 0,
        s.work.last().tys.len() > 1,
        r.arities.base + r.arities.count <= u32::MAX,
        determined(r, s.table, s.work.last()) == (tb, None::<Diag>),
        forall|i: int|
            0 <= i < s.work.last().tys.len() ==> head_of(
                r.arities,
                resolve(tb, Ty::Var(#[trigger] s.work.last().tys[i])),
            ) is Some,
    ensures
        ({
            let c = s.work.last();
            let t = step(r, s);
            let key = (c.class.0, c.tys[0].0);
            let heads = Seq::new(
                c.tys.len(),
                |i: int| head_of(r.arities, resolve(tb, Ty::Var(c.tys[i])))->0,
            );
            let whole = has_instance(r.es, c.class, heads);
            let join = is_composite(r.tycons, heads[0]) && has_instance(
                r.es,
                c.class,
                seq![heads[0]],
            );
            &&& t.retained == s.retained
            &&& t.work == s.work.drop_last()
            &&& whole || join ==> t.plans.dom().contains(key) && s.diags.is_prefix_of(t.diags)
            &&& whole || join ==> t.plans.remove(key) == s.plans.remove(key)
            &&& (whole || join) && !s.plans.dom().contains(key) ==> {
                &&& t.plans[key] matches Plan::Static { class, info, tycon, extra, args }
                    && class == c.class && tycon == heads[0] && exists|i: int|
                    0 <= i < r.es.len() && (#[trigger] r.es[i]).class == c.class && r.es[i].info@
                        == info && r.es[i].key@ == if whole {
                        heads
                    } else {
                        seq![heads[0]]
                    }
            }
            &&& !(whole || join) ==> misses_instance(r, s.diags, t.diags, c.class) && t.plans
                == s.plans
        }),
{
    let c = s.work.last();
    let rs = resolved_tys(tb, c.tys);
    assert forall|i: int| 0 <= i < rs.len() implies head_of(r.arities, #[trigger] rs[i]) is Some by {
        assert(rs[i] == resolve(tb, Ty::Var(c.tys[i])));
    }
    heads_listed(r.arities, rs);
    let hs = head_cons(r.arities, rs);
    let heads = Seq::new(
        c.tys.len(),
        |i: int| head_of(r.arities, resolve(tb, Ty::Var(c.tys[i])))->0,
    );
    assert(heads_of(r.arities, rs) =~= heads);
    assert(as_cons(hs)[0] == TyConId(hs[0]));
    assert(heads[0] == TyConId(hs[0]));
    instances_are_found(r.es, c.class, heads);
    instances_are_found(r.es, c.class, seq![heads[0]]);
    let t = step(r, s);
    let key = (c.class.0, c.tys[0].0);
    assert(t.plans.remove(key) =~= s.plans.remove(key) || !(has_instance(r.es, c.class, heads)
        || is_composite(r.tycons, heads[0]) && has_instance(r.es, c.class, seq![heads[0]])));
    if !has_instance(r.es, c.class, heads) && !(is_composite(r.tycons, heads[0]) && has_instance(
        r.es,
        c.class,
        seq![heads[0]],
    )) {
        assert(t.diags.drop_last() =~= s.diags);
    }
}

/// A constraint over several variables that nothing is known of is kept to
/// generalise over, and over just these variables, unless one of them belongs to
/// an enclosing scope. A constraint of which something is known and something is
/// not is ambiguous.
pub proof fn open_heads_are_kept(r: Rules, s: Solver, tb: Table)
    requires
        s.work.len() > 0,
        s.work.last().tys.len() > 1,
        r.arities.base + r.arities.count <= u32::MAX,
        determined(r, s.table, s.work.last()) == (tb, None::<Diag>),
        exists|i: int|
            0 <= i < s.work.last().tys.len() && head_of(
                r.arities,
                resolve(tb, Ty::Var(#[trigger] s.work.last().tys[i])),
            ) is None,
    ensures
        ({
            let c = s.work.last();
            let t = step(r, s);
            let types = Seq::new(c.tys.len(), |i: int| resolve(tb, Ty::Var(c.tys[i])));
            let open = forall|i: int| 0 <= i < types.len() ==> (#[trigger] types[i]) is Var;
            let inner = forall|i: int|
                0 <= i < types.len() ==> !r.outer.contains(((#[trigger] types[i])->Var_0).0);
            let vars = Seq::new(types.len(), |i: int| types[i]->Var_0);
            let p = Pred { class: c.class, tys: vars };
            &&& t.work == s.work.drop_last()
            &&& open && inner ==> t.retained.contains(p) && t.diags == s.diags
                && t.plans.dom().contains((c.class.0, vars[0].0))
            &&& open && inner && !s.plans.dom().contains((c.class.0, vars[0].0)) ==> t.plans[(
                c.class.0,
                vars[0].0,
            )] == Plan::Forward(p)
            &&& !(open && inner) ==> is_ambiguous(r, s.diags, t.diags, c.class) && t.plans
                == s.plans && t.retained == s.retained
        }),
{
    let c = s.work.last();
    let rs = resolved_tys(tb, c.tys);
    let types = Seq::new(c.tys.len(), |i: int| resolve(tb, Ty::Var(c.tys[i])));
    assert(rs =~= types);
    let k = choose|i: int|
        0 <= i < c.tys.len() && head_of(r.arities, resolve(tb, Ty::Var(#[trigger] c.tys[i]))) is None;
    assert(head_of(r.arities, rs[k]) is None);
    heads_listed(r.arities, rs);
    vars_listed(rs);
    let hv = head_vars(rs);
    outer_found(r.outer, hv);
    let t = step(r, s);
    let open = forall|i: int| 0 <= i < types.len() ==> (#[trigger] types[i]) is Var;
    if open {
        let vars = Seq::new(types.len(), |i: int| types[i]->Var_0);
        assert(as_vars(hv) =~= vars);
        assert forall|i: int| 0 <= i < hv.len() implies TyVid(#[trigger] hv[i]) == types[i]->Var_0 by {
            assert(as_vars(hv)[i] == vars[i]);
        }
        assert forall|i: int| 0 <= i < types.len() implies ((#[trigger] types[i])->Var_0).0 == hv[i] by {
            assert(TyVid(hv[i]) == types[i]->Var_0);
        }
        if first_outer(r.outer, hv) is None {
            assert forall|i: int| 0 <= i < types.len() implies !r.outer.contains(
                ((#[trigger] types[i])->Var_0).0,
            ) by {
                assert(!r.outer.contains(hv[i]));
            }
            let p = Pred { class: c.class, tys: vars };
            if !s.retained.contains(p) {
                assert(t.retained[s.retained.len() as int] == p);
            }
        } else {
            let i = choose|i: int| 0 <= i < hv.len() && r.outer.contains(#[trigger] hv[i]);
            assert(r.outer.contains((types[i]->Var_0).0));
            assert(t.diags.drop_last() =~= s.diags);
        }
    } else {
        assert(t.diags.drop_last() =~= s.diags);
    }
}

/// The name that diagnostics give a class is that of the first class with the id.
pub proof fn classes_are_named(cs: Seq<ClassInfo>, k: int)
    requires
        0 <= k < cs.len(),
        forall|j: int| 0 <= j < k ==> (#[trigger] cs[j]).id != cs[k].id,
    ensures
        class_name(cs, cs[k].id) == cs[k].name@,
        superclasses_of(cs, cs[k].id) == cs[k].superclasses@,
        fundeps_of(cs, cs[k].id) == cs[k].fundeps@,
{
    class_found(cs, k);
}

proof fn class_found(cs: Seq<ClassInfo>, k: int)
    requires
        0 <= k < cs.len(),
        forall|j: int| 0 <= j < k ==> (#[trigger] cs[j]).id != cs[k].id,
    ensures
        find_class(cs, cs[k].id) == Some(cs[k]),
    decreases k,
{
    if k > 0 {
        assert(cs[0].id != cs[k].id);
        assert(cs.skip(1)[k - 1] == cs[k]);
        assert forall|j: int| 0 <= j < k - 1 implies (#[trigger] cs.skip(1)[j]).id != cs[k].id by {
            assert(cs.skip(1)[j] == cs[j + 1]);
        }
        class_found(cs.skip(1), k - 1);
    }
}

/// The class that a name belongs to is the first one of that name.
pub proof fn class_names_are_found(cs: Seq<ClassInfo>, name: Seq<char>)
    ensures
        class_named(cs, name) is Some <==> exists|i: int|
            0 <= i < cs.len() && (#[trigger] cs[i]).name@ == name,
        class_named(cs, name) matches Some(id) ==> exists|i: int|
            0 <= i < cs.len() && (#[trigger] cs[i]).name@ == name && cs[i].id == id && forall|j: int|
                0 <= j < i ==> (#[trigger] cs[j]).name@ != name,
    decreases cs.len(),
{
    if cs.len() > 0 {
        let rest = cs.skip(1);
        class_names_are_found(rest, name);
        if cs[0].name@ != name {
            if exists|i: int| 0 <= i < cs.len() && (#[trigger] cs[i]).name@ == name {
                let i = choose|i: int| 0 <= i < cs.len() && (#[trigger] cs[i]).name@ == name;
                assert(rest[i - 1].name@ == name);
            }
            if let Some(id) = class_named(rest, name) {
                let i = choose|i: int|
                    0 <= i < rest.len() && (#[trigger] rest[i]).name@ == name && rest[i].id == id
                        && forall|j: int| 0 <= j < i ==> (#[trigger] rest[j]).name@ != name;
                assert(cs[i + 1].name@ == name);
                assert forall|j: int| 0 <= j < i + 1 implies (#[trigger] cs[j]).name@ != name by {
                    if j > 0 {
                        assert(rest[j - 1] == cs[j]);
                    }
                }
            }
        }
    }
}

/// The constructors of composite joins go by their names.
pub proof fn composite_joins_are_named(tycons: Seq<TyConDecl>, id: TyConId)
    requires
        id.0 < tycons.len(),
    ensures
        is_composite(tycons, id) <==> (tycons[id.0 as int].name@ == "Joined"@
            || tycons[id.0 as int].name@ == "LeftJoined"@ || tycons[id.0 as int].name@
            == "RightJoined"@ || tycons[id.0 as int].name@ == "FullJoined"@),
{
    reveal_strlit("Joined");
    reveal_strlit("LeftJoin");
    reveal_strlit("LeftJoined");
    reveal_strlit("RightJoin");
    reveal_strlit("RightJoined");
    reveal_strlit("FullJoin");
    reveal_strlit("FullJoined");
    assert("LeftJoined"@.len() == 10 && "RightJoined"@.len() == 11 && "FullJoined"@.len() == 10);
    assert("LeftJoin"@.len() == 8 && "RightJoin"@.len() == 9 && "FullJoin"@.len() == 8);
    assert("Joined"@.len() == 6);
    assert("LeftJoined"@[0] == 'L' && "FullJoined"@[0] == 'F');
}

/// A superclass is required of the variable, unless it was looked up.
proof fn supers_queued(
    work: Seq<Pred>,
    supers: Seq<ClassId>,
    visited: Seq<(u32, Ty)>,
    t: Ty,
    v: TyVid,
)
    ensures
        work.is_prefix_of(queued(work, supers, visited, t, v)),
        forall|i: int|
            0 <= i < supers.len() && !visited.contains(((#[trigger] supers[i]).0, t))
                ==> queued(work, supers, visited, t, v).contains(
                Pred { class: supers[i], tys: seq![v] },
            ),
    decreases supers.len(),
{
    if supers.len() > 0 {
        let less = supers.drop_last();
        supers_queued(work, less, visited, t, v);
        let before = queued(work, less, visited, t, v);
        let after = queued(work, supers, visited, t, v);
        assert(before.is_prefix_of(after));
        assert forall|i: int|
            0 <= i < supers.len() && !visited.contains(
                ((#[trigger] supers[i]).0, t),
            ) implies after.contains(Pred { class: supers[i], tys: seq![v] }) by {
            let p = Pred { class: supers[i], tys: seq![v] };
            if i < supers.len() - 1 {
                assert(less[i] == supers[i]);
                assert(before.contains(p));
                let k = choose|k: int| 0 <= k < before.len() && before[k] == p;
                assert(after[k] == p);
            } else {
                assert(single(supers[i], v) =~= p);
                assert(after[before.len() as int] == p);
            }
        }
    } else {
        assert(work.is_prefix_of(work));
    }
}

/// A constraint over one variable that stands for a type with a constructor is
/// answered the first time that the class is asked of the type: by a plan, and
/// by the superclasses that are then required of the same variable, where there
/// is an instance for the constructor, and otherwise by the diagnostic that there
/// is none.
pub proof fn concrete_types_are_answered(r: Rules, s: Solver, id: TyConId)
    requires
        s.work.len() > 0,
        s.work.last().tys.len() == 1,
        r.arities.base + r.arities.count <= u32::MAX,
        head_of(r.arities, resolve(s.table, Ty::Var(s.work.last().tys[0]))) == Some(id),
        !s.visited.contains(
            (s.work.last().class.0, resolve(s.table, Ty::Var(s.work.last().tys[0]))),
        ),
    ensures
        ({
            let c = s.work.last();
            let ty = resolve(s.table, Ty::Var(c.tys[0]));
            let t = step(r, s);
            let key = (c.class.0, c.tys[0].0);
            &&& t.retained == s.retained && t.table == s.table
            &&& t.visited == s.visited.push((c.class.0, ty))
            &&& !has_instance(r.es, c.class, seq![id]) ==> misses_instance(
                r,
                s.diags,
                t.diags,
                c.class,
            ) && t.plans == s.plans && t.work == s.work.drop_last()
            &&& has_instance(r.es, c.class, seq![id]) ==> {
                &&& t.plans.dom().contains(key)
                &&& t.plans.remove(key) == s.plans.remove(key)
                &&& s.diags.is_prefix_of(t.diags)
                &&& s.work.drop_last().is_prefix_of(t.work)
                &&& s.plans.dom().contains(key) ==> t.plans == s.plans
                &&& !s.plans.dom().contains(key) ==> {
                    t.plans[key] matches Plan::Static { class, info, tycon, extra, args }
                        && class == c.class && tycon == id && extra.len() == 0 && exists|i: int|
                        0 <= i < r.es.len() && (#[trigger] r.es[i]).class == c.class
                            && r.es[i].key@ == seq![id] && r.es[i].info@ == info
                }
                &&& forall|i: int|
                    0 <= i < superclasses_of(r.cs, c.class).len() && !t.visited.contains(
                        ((#[trigger] superclasses_of(r.cs, c.class)[i]).0, ty),
                    ) ==> t.work.contains(
                        Pred { class: superclasses_of(r.cs, c.class)[i], tys: seq![c.tys[0]] },
                    )
            }
        }),
{
    let c = s.work.last();
    let ty = resolve(s.table, Ty::Var(c.tys[0]));
    let key = (c.class.0, c.tys[0].0);
    let t = step(r, s);
    instances_are_found(r.es, c.class, seq![id]);
    if has_instance(r.es, c.class, seq![id]) {
        supers_queued(
            s.work.drop_last(),
            superclasses_of(r.cs, c.class),
            s.visited.push((c.class.0, ty)),
            ty,
            c.tys[0],
        );
        assert(t.plans.remove(key) =~= s.plans.remove(key));
    } else {
        assert(t.diags.drop_last() =~= s.diags);
    }
}

/// A constraint over one variable that nothing is known of is kept to generalise
/// over, unless it belongs to an enclosing scope, where it is ambiguous. A type
/// that no instance can be for is reported.
pub proof fn open_types_are_kept(r: Rules, s: Solver)
    requires
        s.work.len() > 0,
        s.work.last().tys.len() == 1,
        r.arities.base + r.arities.count <= u32::MAX,
        head_of(r.arities, resolve(s.table, Ty::Var(s.work.last().tys[0]))) is None,
    ensures
        ({
            let c = s.work.last();
            let ty = resolve(s.table, Ty::Var(c.tys[0]));
            let t = step(r, s);
            &&& t.work == s.work.drop_last() && t.visited == s.visited && t.table == s.table
            &&& match ty {
                Ty::Var(v) => {
                    let p = Pred { class: c.class, tys: seq![v] };
                    if r.outer.contains(v.0) {
                        is_ambiguous(r, s.diags, t.diags, c.class) && t.plans == s.plans
                            && t.retained == s.retained
                    } else {
                        &&& t.retained.contains(p)
                        &&& t.diags == s.diags
                        &&& t.plans.dom().contains((c.class.0, v.0))
                        &&& !s.plans.dom().contains((c.class.0, v.0)) ==> t.plans[(
                            c.class.0,
                            v.0,
                        )] == Plan::Forward(p)
                    }
                },
                _ => misses_instance(r, s.diags, t.diags, c.class) && t.plans == s.plans
                    && t.retained == s.retained,
            }
        }),
{
    let c = s.work.last();
    let ty = resolve(s.table, Ty::Var(c.tys[0]));
    let t = step(r, s);
    match ty {
        Ty::Var(v) => {
            let p = Pred { class: c.class, tys: seq![v] };
            assert(single(c.class, v) =~= p);
            if !r.outer.contains(v.0) {
                if !s.retained.contains(p) {
                    assert(t.retained[s.retained.len() as int] == p);
                }
            } else {
                assert(t.diags.drop_last() =~= s.diags);
            }
        },
        _ => {
            assert(t.diags.drop_last() =~= s.diags);
        },
    }
}

/// There is a plan for some constraint of a class.
pub open spec fn has_plan(s: Solver, class: u32) -> bool {
    exists|v: u32| #[trigger] s.plans.dom().contains((class, v))
}

/// Every class that was looked up has a plan.
spec fn seen_have_plans(s: Solver) -> bool {
    forall|i: int| 0 <= i < s.visited.len() ==> has_plan(s, (#[trigger] s.visited[i]).0)
}

proof fn step_answers(r: Rules, s: Solver)
    requires
        s.work.len() > 0,
        s.work.last().tys.len() >= 1,
        r.arities.base + r.arities.count <= u32::MAX,
        seen_have_plans(s),
    ensures
        s.diags.is_prefix_of(step(r, s).diags),
        s.work.drop_last().is_prefix_of(step(r, s).work),
        forall|k: (u32, u32)| #[trigger]
            s.plans.dom().contains(k) ==> step(r, s).plans.dom().contains(k),
        step(r, s).diags.len() == s.diags.len() ==> has_plan(step(r, s), s.work.last().class.0)
            && seen_have_plans(step(r, s)),
        forall|i: int|
            0 <= i < step(r, s).work.len() && i >= s.work.len() - 1 ==> (#[trigger] step(
                r,
                s,
            ).work[i]).tys.len() == 1,
{
    let c = s.work.last();
    let t = step(r, s);
    assert forall|k: (u32, u32)| #[trigger] s.plans.dom().contains(
        k,
    ) implies t.plans.dom().contains(k) by {}
    assert forall|cl: u32| #[trigger] has_plan(s, cl) implies has_plan(t, cl) by {
        let v = choose|v: u32| #[trigger] s.plans.dom().contains((cl, v));
        assert(t.plans.dom().contains((cl, v)));
    }
    if c.tys.len() == 1 {
        let ty = resolve(s.table, Ty::Var(c.tys[0]));
        match head_of(r.arities, ty) {
            Some(id) => {
                if s.visited.contains((c.class.0, ty)) {
                    let i = choose|i: int|
                        0 <= i < s.visited.len() && s.visited[i] == (c.class.0, ty);
                    assert(has_plan(s, s.visited[i].0));
                } else {
                    concrete_types_are_answered(r, s, id);
                    supers_are_single(
                        s.work.drop_last(),
                        superclasses_of(r.cs, c.class),
                        s.visited.push((c.class.0, ty)),
                        ty,
                        c.tys[0],
                    );
                    if t.diags.len() == s.diags.len() {
                        assert(t.plans.dom().contains((c.class.0, c.tys[0].0)));
                        assert forall|i: int| 0 <= i < t.visited.len() implies has_plan(
                            t,
                            (#[trigger] t.visited[i]).0,
                        ) by {
                            if i < s.visited.len() {
                                assert(has_plan(s, s.visited[i].0));
                            }
                        }
                    }
                }
            },
            None => {
                open_types_are_kept(r, s);
                if t.diags.len() == s.diags.len() {
                    assert(t.plans.dom().contains((c.class.0, (ty->Var_0).0)));
                    assert forall|i: int| 0 <= i < t.visited.len() implies has_plan(
                        t,
                        (#[trigger] t.visited[i]).0,
                    ) by {
                        assert(has_plan(s, s.visited[i].0));
                    }
                }
            },
        }
    } else {
        let (tb, d) = determined(r, s.table, c);
        if d is None {
            if forall|i: int|
                0 <= i < c.tys.len() ==> head_of(
                    r.arities,
                    resolve(tb, Ty::Var(#[trigger] c.tys[i])),
                ) is Some {
                concrete_heads_are_answered(r, s, tb);
                if t.diags.len() == s.diags.len() {
                    assert(t.plans.dom().contains((c.class.0, c.tys[0].0)));
                }
            } else {
                open_heads_are_kept(r, s, tb);
                if t.diags.len() == s.diags.len() {
                    let v = resolve(tb, Ty::Var(c.tys[0]))->Var_0;
                    assert(t.plans.dom().contains((c.class.0, v.0)));
                }
            }
            assert(t.visited == s.visited);
            if t.diags.len() == s.diags.len() {
                assert forall|i: int| 0 <= i < t.visited.len() implies has_plan(
                    t,
                    (#[trigger] t.visited[i]).0,
                ) by {
                    assert(has_plan(s, s.visited[i].0));
                }
            }
        }
    }
}

proof fn supers_are_single(
    work: Seq<Pred>,
    supers: Seq<ClassId>,
    visited: Seq<(u32, Ty)>,
    t: Ty,
    v: TyVid,
)
    ensures
        forall|i: int|
            work.len() <= i < queued(work, supers, visited, t, v).len() ==> (#[trigger] queued(
                work,
                supers,
                visited,
                t,
                v,
            )[i]).tys.len() == 1,
    decreases supers.len(),
{
    if supers.len() > 0 {
        supers_are_single(work, supers.drop_last(), visited, t, v);
        supers_queued(work, supers.drop_last(), visited, t, v);
    }
}

proof fn run_answers(r: Rules, s: Solver, n: nat)
    requires
        run(r, s, n).work.len() == 0,
        r.arities.base + r.arities.count <= u32::MAX,
        seen_have_plans(s),
        forall|i: int| 0 <= i < s.work.len() ==> (#[trigger] s.work[i]).tys.len() >= 1,
    ensures
        s.diags.len() <= run(r, s, n).diags.len(),
        run(r, s, n).diags.len() == s.diags.len() ==> seen_have_plans(run(r, s, n)) && forall|i: int|
            0 <= i < s.work.len() ==> has_plan(run(r, s, n), (#[trigger] s.work[i]).class.0),
        run(r, s, n).diags.len() == s.diags.len() ==> forall|cl: u32| #[trigger]
            has_plan(s, cl) ==> has_plan(run(r, s, n), cl),
    decreases n,
{
    if n > 0 && s.work.len() > 0 {
        let m = step(r, s);
        let t = run(r, s, n);
        assert(s.work[s.work.len() - 1] == s.work.last());
        step_answers(r, s);
        assert forall|i: int| 0 <= i < m.work.len() implies (#[trigger] m.work[i]).tys.len() >= 1 by {
            if i < s.work.len() - 1 {
                assert(s.work.drop_last()[i] == s.work[i]);
                assert(m.work[i] == s.work[i]);
            }
        }
        if m.diags.len() == s.diags.len() {
            run_answers(r, m, (n - 1) as nat);
            if t.diags.len() == s.diags.len() {
                assert forall|cl: u32| #[trigger] has_plan(s, cl) implies has_plan(t, cl) by {
                    let v = choose|v: u32| #[trigger] s.plans.dom().contains((cl, v));
                    assert(m.plans.dom().contains((cl, v)));
                    assert(has_plan(m, cl));
                }
                assert forall|i: int| 0 <= i < s.work.len() implies has_plan(
                    t,
                    (#[trigger] s.work[i]).class.0,
                ) by {
                    if i < s.work.len() - 1 {
                        assert(s.work.drop_last()[i] == s.work[i]);
                        assert(m.work[i] == s.work[i]);
                        assert(has_plan(t, m.work[i].class.0));
                    } else {
                        assert(has_plan(m, s.work.last().class.0));
                    }
                }
            }
        } else {
            run_only_adds(r, m, (n - 1) as nat);
        }
    }
}

proof fn step_only_adds(r: Rules, s: Solver)
    requires
        s.work.len() > 0,
    ensures
        s.diags.len() <= step(r, s).diags.len(),
{
}

proof fn run_only_adds(r: Rules, s: Solver, n: nat)
    ensures
        s.diags.len() <= run(r, s, n).diags.len(),
    decreases n,
{
    if n > 0 && s.work.len() > 0 {
        step_only_adds(r, s);
        run_only_adds(r, step(r, s), (n - 1) as nat);
    }
}

/// Solving that reports nothing has a plan for a constraint of every class that
/// was asked for.
pub proof fn silence_means_plans(r: Rules, work: Seq<Pred>, ds: Seq<Diag>, tb: Table, t: Solver)
    requires
        r.arities.base + r.arities.count <= u32::MAX,
        forall|i: int| 0 <= i < work.len() ==> (#[trigger] work[i]).tys.len() >= 1,
        solves(r, initial(work, ds, tb), t),
        t.diags.len() == ds.len(),
    ensures
        t.diags == ds,
        forall|i: int| 0 <= i < work.len() ==> has_plan(t, (#[trigger] work[i]).class.0),
{
    let s = initial(work, ds, tb);
    let n = choose|n: nat| #[trigger] run(r, s, n) == t;
    run_answers(r, s, n);
    solving_only_adds(r, s, t);
    assert(t.diags =~= ds);
}

} // verus!

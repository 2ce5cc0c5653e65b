use rustc_hash::FxHashMap;
use vstd::prelude::*;

use crate::class_seeds::{
    sig_seeded, sig_steps, type_converted, types_converted, var_names, SigSteps,
};
use crate::classes::{class_named, ClassInfo, MethodSig};
use crate::ctx::{in_scope, InferCtx};
use crate::handling::bindings_are_seen;
use crate::heads::TypeExpr;
use crate::instantiate::fresh_vars;
use crate::query_seeds::{
    aggregable_seeds, avg_of_method, bound_method, distinct_method, pageable_seeds,
    scalar_of_method,
};
use crate::seeds::{bind_seed, method, Seeding};
use crate::types::{BuiltinTyCons, CapRow, CapabilitySet, ClassId, Poly, Ty, TyConId, TyVid, Type};

verus! {

/// The variables of a class are known by their names in the signatures of its
/// methods, each as the new variable at its place. A variable without a name is
/// known by none.
pub proof fn class_variables_are_known(names: Seq<String>, from: nat, k: nat, name: Seq<char>)
    requires
        k <= names.len(),
        from + k <= u32::MAX,
        name.len() > 0,
    ensures
        forall|i: int|
            0 <= i < k && (#[trigger] names[i])@ == name && (forall|j: int|
                i < j < k ==> (#[trigger] names[j])@ != name) ==> var_names(
                names,
                from,
                k,
            ).dom().contains(name) && var_names(names, from, k)[name] == TyVid((from + i) as u32),
        (forall|j: int| 0 <= j < k ==> (#[trigger] names[j])@ != name) ==> !var_names(
            names,
            from,
            k,
        ).dom().contains(name),
    decreases k,
{
    if k > 0 {
        class_variables_are_known(names, from, (k - 1) as nat, name);
        assert(names[k - 1]@ == names[k - 1]@);
        assert(fresh_vars(from, k)[k - 1] == TyVid((from + (k - 1)) as u32));
    }
}

/// `t` is read as `ty` in the signature of a method.
pub open spec fn reads_as<
    V: Fn(InferCtx, &TypeExpr, &FxHashMap<String, TyConId>, &FxHashMap<String, TyVid>) -> (
        InferCtx,
        Type,
    ),
>(
    convert: V,
    t: TypeExpr,
    names: FxHashMap<String, TyConId>,
    vars: FxHashMap<String, TyVid>,
    ty: Ty,
) -> bool {
    exists|c: InferCtx, d: InferCtx| #[trigger] type_converted(convert, c, d, t, names, vars, ty)
}

proof fn parameters_are_read<
    V: Fn(InferCtx, &TypeExpr, &FxHashMap<String, TyConId>, &FxHashMap<String, TyVid>) -> (
        InferCtx,
        Type,
    ),
>(
    convert: V,
    c: InferCtx,
    d: InferCtx,
    ts: Seq<TypeExpr>,
    names: FxHashMap<String, TyConId>,
    vars: FxHashMap<String, TyVid>,
    tys: Seq<Ty>,
    k: nat,
)
    requires
        k <= ts.len(),
        types_converted(convert, c, d, ts, names, vars, tys, k),
    ensures
        tys.len() == k,
        forall|i: int| 0 <= i < k ==> reads_as(convert, #[trigger] ts[i], names, vars, tys[i]),
    decreases k,
{
    if k > 0 {
        let m = choose|m: InferCtx| #[trigger]
            type_converted(convert, m, d, ts[k - 1], names, vars, tys[k - 1]) && types_converted(
                convert,
                c,
                m,
                ts,
                names,
                vars,
                tys.drop_last(),
                (k - 1) as nat,
            );
        parameters_are_read(convert, c, m, ts, names, vars, tys.drop_last(), (k - 1) as nat);
        assert forall|i: int| 0 <= i < k implies reads_as(
            convert,
            #[trigger] ts[i],
            names,
            vars,
            tys[i],
        ) by {
            if i < k - 1 {
                assert(tys.drop_last()[i] == tys[i]);
            } else {
                assert(type_converted(convert, m, d, ts[i], names, vars, tys[i]));
            }
        }
    }
}

/// A method that comes with its types is bound to a function of its parameters'
/// types, each read in its place, under one constraint: that of its class, over
/// the variables of the class.
pub proof fn methods_have_their_signatures<
    V: Fn(InferCtx, &TypeExpr, &FxHashMap<String, TyConId>, &FxHashMap<String, TyVid>) -> (
        InferCtx,
        Type,
    ),
>(
    convert: V,
    c: InferCtx,
    d: InferCtx,
    class: ClassId,
    sig: MethodSig,
    names: FxHashMap<String, TyConId>,
    s: SigSteps,
)
    requires
        sig_steps(convert, c, d, class, sig, names, s),
        s.closed.env@.len() > 0,
        sig.class_ty_vars@.len() > 0,
        c.table().types.len() + sig.class_ty_vars@.len() <= u32::MAX,
    ensures
        in_scope(d.env@, sig.name@) matches Some(p) && ({
            let n = sig.class_ty_vars@.len();
            &&& p.vars.len() == n
            &&& forall|i: int|
                0 <= i < n ==> (#[trigger] p.vars[i]) == TyVid((c.table().types.len() + i) as u32)
            &&& p.constraints.len() == 1
            &&& p.constraints[0].class == class
            &&& p.constraints[0].tys == p.vars
            &&& p.ty matches Ty::Fn { params, ret, caps } && params.len()
                == sig.ast_param_types@.len() && (forall|i: int|
                0 <= i < params.len() ==> reads_as(
                    convert,
                    #[trigger] sig.ast_param_types@[i],
                    names,
                    s.vars,
                    params[i],
                )) && reads_as(convert, sig.ast_ret_type->0, names, s.vars, *ret) && caps
                == CapRow::Concrete(CapabilitySet(0))
        }),
{
    let n = sig.class_ty_vars@.len();
    let p = method(fresh_vars(c.table().types.len(), n), n as int, class, s.params, s.ret);
    bindings_are_seen(s.closed.env@, sig.name@, p, sig.name@);
    parameters_are_read(
        convert,
        s.numbered,
        s.converted,
        sig.ast_param_types@,
        names,
        s.vars,
        s.params,
        sig.ast_param_types@.len(),
    );
    assert(type_converted(
        convert,
        s.converted,
        s.closed,
        sig.ast_ret_type->0,
        names,
        s.vars,
        s.ret,
    ));
    assert(p.constraints[0].tys =~= p.vars);
}

/// A method that comes without its types is not bound.
pub proof fn untyped_methods_are_passed_over<
    V: Fn(InferCtx, &TypeExpr, &FxHashMap<String, TyConId>, &FxHashMap<String, TyVid>) -> (
        InferCtx,
        Type,
    ),
>(
    convert: V,
    c: InferCtx,
    d: InferCtx,
    class: ClassId,
    sig: MethodSig,
    names: FxHashMap<String, TyConId>,
)
    requires
        sig_seeded(convert, c, d, class, sig, names),
        sig.ast_ret_type is None || sig.ast_param_types@.len() == 0,
    ensures
        d == c,
{
}

/// A scheme of a function under one constraint over all of its variables.
pub open spec fn is_verb(p: Poly, class: ClassId, from: Seq<Ty>, to: Ty) -> bool {
    &&& p.constraints.len() == 1
    &&& p.constraints[0].class == class
    &&& p.constraints[0].tys == p.vars
    &&& p.ty matches Ty::Fn { params, ret, caps } && params == from && *ret == to
}

/// `limit` and `offset` take a number and a query and give such a query, and
/// `distinct` takes the query alone.
pub proof fn paging_keeps_the_query(
    b: BuiltinTyCons,
    cs: Seq<ClassInfo>,
    s: Seeding,
    class: ClassId,
)
    requires
        s.env.len() > 0,
        class_named(cs, "Pageable"@) == Some(class),
    ensures
        ({
            let env = pageable_seeds(b, cs, s).env;
            let number = Ty::Con(b.int, Seq::empty());
            &&& in_scope(env, "limit"@) matches Some(p) && p.vars.len() == 1 && is_verb(
                p,
                class,
                seq![number, Ty::Var(p.vars[0])],
                Ty::Var(p.vars[0]),
            )
            &&& in_scope(env, "offset"@) matches Some(p) && p.vars.len() == 1 && is_verb(
                p,
                class,
                seq![number, Ty::Var(p.vars[0])],
                Ty::Var(p.vars[0]),
            )
            &&& in_scope(env, "distinct"@) matches Some(p) && p.vars.len() == 1 && is_verb(
                p,
                class,
                seq![Ty::Var(p.vars[0])],
                Ty::Var(p.vars[0]),
            )
        }),
{
    reveal_strlit("limit");
    reveal_strlit("offset");
    reveal_strlit("distinct");
    assert("limit"@.len() == 5 && "offset"@.len() == 6 && "distinct"@.len() == 8);
    let v1 = fresh_vars(s.vars, 1);
    let s1 = bind_seed(s, "limit"@, 1, bound_method(b, class, v1));
    let v2 = fresh_vars(s1.vars, 1);
    let s2 = bind_seed(s1, "offset"@, 1, bound_method(b, class, v2));
    let v3 = fresh_vars(s2.vars, 1);
    bindings_are_seen(s.env, "limit"@, bound_method(b, class, v1), "limit"@);
    bindings_are_seen(s1.env, "offset"@, bound_method(b, class, v2), "limit"@);
    bindings_are_seen(s1.env, "offset"@, bound_method(b, class, v2), "offset"@);
    bindings_are_seen(s2.env, "distinct"@, distinct_method(b, class, v3), "limit"@);
    bindings_are_seen(s2.env, "distinct"@, distinct_method(b, class, v3), "offset"@);
    bindings_are_seen(s2.env, "distinct"@, distinct_method(b, class, v3), "distinct"@);
    assert(v1.take(1) =~= v1 && v2.take(1) =~= v2 && v3.take(1) =~= v3);
}

/// `sumOf`, `minOf` and `maxOf` give what the quote gives, where there is a row,
/// and `avgOf` gives a float.
pub proof fn aggregates_give_what_the_quote_gives(
    b: BuiltinTyCons,
    cs: Seq<ClassInfo>,
    s: Seeding,
    class: ClassId,
    name: Seq<char>,
)
    requires
        s.env.len() > 0,
        class_named(cs, "Aggregable"@) == Some(class),
        name == "sumOf"@ || name == "minOf"@ || name == "maxOf"@ || name == "avgOf"@,
    ensures
        in_scope(aggregable_seeds(b, cs, s).env, name) matches Some(p) && p.vars.len() == 2 && ({
            let given = if name == "avgOf"@ {
                Ty::Con(b.float, Seq::empty())
            } else {
                Ty::Con(b.ret, seq![Ty::Var(p.vars[1])])
            };
            is_verb(
                p,
                class,
                seq![Ty::Con(b.quote, seq![Ty::Var(p.vars[1])]), Ty::Var(p.vars[0])],
                Ty::Con(
                    b.result,
                    seq![Ty::Con(b.option, seq![given]), Ty::Con(b.error, Seq::empty())],
                ),
            )
        }),
{
    reveal_strlit("sumOf");
    reveal_strlit("avgOf");
    reveal_strlit("minOf");
    reveal_strlit("maxOf");
    assert("sumOf"@[0] == 's' && "avgOf"@[0] == 'a' && "minOf"@[0] == 'm' && "maxOf"@[0] == 'm');
    assert("minOf"@[1] == 'i' && "maxOf"@[1] == 'a');
    let v1 = fresh_vars(s.vars, 2);
    let p1 = scalar_of_method(b, class, v1);
    let s1 = bind_seed(s, "sumOf"@, 2, p1);
    let v2 = fresh_vars(s1.vars, 2);
    let p2 = avg_of_method(b, class, v2);
    let s2 = bind_seed(s1, "avgOf"@, 2, p2);
    let v3 = fresh_vars(s2.vars, 2);
    let p3 = scalar_of_method(b, class, v3);
    let s3 = bind_seed(s2, "minOf"@, 2, p3);
    let v4 = fresh_vars(s3.vars, 2);
    let p4 = scalar_of_method(b, class, v4);
    bindings_are_seen(s.env, "sumOf"@, p1, name);
    bindings_are_seen(s1.env, "avgOf"@, p2, name);
    bindings_are_seen(s2.env, "minOf"@, p3, name);
    bindings_are_seen(s3.env, "maxOf"@, p4, name);
    assert(v1.take(2) =~= v1 && v2.take(2) =~= v2 && v3.take(2) =~= v3 && v4.take(2) =~= v4);
}

} // verus!

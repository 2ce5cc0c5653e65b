use vstd::prelude::*;

use crate::ast::{
    ActorDecl, ActorMember, Body, ConstDecl, Expr, FnDecl, HandlerDecl, HandlerParam, Item, Pattern,
};
use crate::ctx::{in_scope, latest_binding_wins, with_binding, InferCtx};
use crate::declaring::only_type;
use crate::decls::body_id;
use crate::fx::by_name;
use crate::module_check::{
    actor_of, all_caps_checked, caps_checked, const_bound, consts_bound, handler_checked,
    handlers_before, item_walked, items_walked, member_checked, members_checked, param_bound,
    params_bound, state_bound, with_caps, with_fields,
};
use crate::stdlib_env::Scopes;
use crate::types::{
    mono, ActorSchema, CapabilitySet, Poly, RecordField, Scheme, Span, TyConDecl, TyConId,
    TyConKind, Type,
};

verus! {

broadcast use crate::types::group_views;

/// A name bound to a scheme is in scope under it, and other names stay what they
/// are.
pub proof fn bindings_are_seen(env: Scopes, own: Seq<char>, p: Poly, name: Seq<char>)
    requires
        env.len() > 0,
    ensures
        with_binding(env, own, p).len() == env.len(),
        in_scope(with_binding(env, own, p), name) == if own == name {
            Some(p)
        } else {
            in_scope(env, name)
        },
{
    let other = if own != name {
        name
    } else {
        name.push('_')
    };
    assert(other != own) by {
        if own == name {
            assert(other.len() == name.len() + 1);
        }
    }
    latest_binding_wins(env, own, p, other);
}

proof fn fields_in_scope(env: Scopes, fields: Seq<RecordField>, k: nat, name: Seq<char>)
    requires
        env.len() > 0,
        k <= fields.len(),
    ensures
        with_fields(env, fields, k).len() == env.len(),
        (forall|j: int| 0 <= j < k ==> (#[trigger] fields[j]).name@ != name) ==> in_scope(
            with_fields(env, fields, k),
            name,
        ) == in_scope(env, name),
        forall|i: int|
            0 <= i < k && (#[trigger] fields[i]).name@ == name && (forall|j: int|
                i < j < k ==> (#[trigger] fields[j]).name@ != name) ==> (in_scope(
                with_fields(env, fields, k),
                name,
            ) matches Some(p) && only_type(p, fields[i].ty@)),
    decreases k,
{
    if k > 0 {
        fields_in_scope(env, fields, (k - 1) as nat, name);
        let before = with_fields(env, fields, (k - 1) as nat);
        bindings_are_seen(before, fields[k - 1].name@, mono(fields[k - 1].ty@), name);
        let after = with_fields(env, fields, k);
        assert forall|i: int|
            0 <= i < k && (#[trigger] fields[i]).name@ == name && (forall|j: int|
                i < j < k ==> (#[trigger] fields[j]).name@ != name) implies (in_scope(
            after,
            name,
        ) matches Some(p) && only_type(p, fields[i].ty@)) by {
            if i < k - 1 {
                assert(fields[k - 1].name@ != name);
            }
        }
    }
}

/// In a handler the fields of the actor's state are in scope, each under its own
/// type, and other names mean what they mean outside.
pub proof fn handlers_see_the_state(
    c: InferCtx,
    a: InferCtx,
    fields: Seq<RecordField>,
    name: Seq<char>,
)
    requires
        state_bound(c, a, fields),
    ensures
        (forall|j: int| 0 <= j < fields.len() ==> (#[trigger] fields[j]).name@ != name) ==> in_scope(
            a.env@,
            name,
        ) == in_scope(c.env@, name),
        forall|i: int|
            0 <= i < fields.len() && (#[trigger] fields[i]).name@ == name && (forall|j: int|
                i < j < fields.len() ==> (#[trigger] fields[j]).name@ != name) ==> (in_scope(
                a.env@,
                name,
            ) matches Some(p) && only_type(p, fields[i].ty@)),
        a.env@.len() == c.env@.len() + 1,
{
    let inner = c.env@.push(Seq::empty());
    fields_in_scope(inner, fields, fields.len(), name);
    assert(inner.drop_last() =~= c.env@);
}

/// A parameter of a handler that is a name is in scope under the type that the
/// signature has at its place; the last of those of one name is meant.
pub proof fn handlers_see_their_parameters<P: Fn(InferCtx, &Pattern, &Type, Span) -> InferCtx>(
    bind: P,
    c: InferCtx,
    d: InferCtx,
    ps: Seq<HandlerParam>,
    tys: Seq<Type>,
    k: nat,
    name: Seq<char>,
)
    requires
        c.env@.len() > 0,
        k <= ps.len(),
        k <= tys.len(),
        forall|i: int| 0 <= i < k ==> (#[trigger] ps[i]) is Named,
        params_bound(bind, c, d, ps, tys, k),
    ensures
        d.env@.len() == c.env@.len(),
        (forall|j: int|
            0 <= j < k ==> ((#[trigger] ps[j]) matches HandlerParam::Named(id) && id.text@ != name))
            ==> in_scope(d.env@, name) == in_scope(c.env@, name),
        forall|i: int|
            0 <= i < k && ((#[trigger] ps[i]) matches HandlerParam::Named(id) && id.text@ == name)
                && (forall|j: int|
                i < j < k ==> ((#[trigger] ps[j]) matches HandlerParam::Named(id) && id.text@
                    != name)) ==> (in_scope(d.env@, name) matches Some(p) && only_type(p, tys[i]@)),
    decreases k,
{
    if k > 0 {
        let m = choose|m: InferCtx| #[trigger]
            param_bound(bind, m, d, ps[k - 1], tys[k - 1]) && params_bound(
                bind,
                c,
                m,
                ps,
                tys,
                (k - 1) as nat,
            );
        handlers_see_their_parameters(bind, c, m, ps, tys, (k - 1) as nat, name);
        assert(ps[k - 1] is Named);
        let id = ps[k - 1]->Named_0;
        bindings_are_seen(m.env@, id.text@, mono(tys[k - 1]@), name);
        assert forall|i: int|
            0 <= i < k && ((#[trigger] ps[i]) matches HandlerParam::Named(id) && id.text@ == name)
                && (forall|j: int|
                i < j < k ==> ((#[trigger] ps[j]) matches HandlerParam::Named(id) && id.text@
                    != name)) implies (in_scope(d.env@, name) matches Some(p) && only_type(
            p,
            tys[i]@,
        )) by {
            if i < k - 1 {
                assert(ps[k - 1] matches HandlerParam::Named(id) && id.text@ != name);
            }
        }
    }
}

/// A constant is in scope under the type of its value, and hovering over its
/// name shows that type.
pub proof fn constants_have_the_type_of_their_value<
    F: Fn(InferCtx, &Expr) -> (InferCtx, Type),
>(infer: F, c: InferCtx, d: InferCtx, decl: ConstDecl)
    requires
        const_bound(infer, c, d, decl),
        forall|out: (InferCtx, Type)| #[trigger]
            call_ensures(infer, (c, &decl.value), out) ==> out.0.env@.len() > 0,
    ensures
        exists|out: (InferCtx, Type)| #[trigger]
            call_ensures(infer, (c, &decl.value), out) && (in_scope(
                d.env@,
                decl.name.text@,
            ) matches Some(p) && only_type(p, out.1@)) && by_name(
                d.name_schemes_accum@,
            ).dom().contains(decl.name.text@) && only_type(
                by_name(d.name_schemes_accum@)[decl.name.text@]@,
                out.1@,
            ),
{
    let (out, s) = choose|out: (InferCtx, Type), s: Scheme|
        #![trigger call_ensures(infer, (c, &decl.value), out), by_name(out.0.name_schemes_accum@).insert(decl.name.text@, s)]
        {
            &&& call_ensures(infer, (c, &decl.value), out)
            &&& s@ == mono(out.1@)
            &&& d.env@ == with_binding(out.0.env@, decl.name.text@, mono(out.1@))
            &&& by_name(d.name_schemes_accum@) == by_name(out.0.name_schemes_accum@).insert(
                decl.name.text@,
                s,
            )
            &&& d == (InferCtx {
                env: d.env,
                name_schemes_accum: d.name_schemes_accum,
                ..out.0
            })
        };
    assert(call_ensures(infer, (c, &decl.value), out));
    bindings_are_seen(out.0.env@, decl.name.text@, mono(out.1@), decl.name.text@);
}

/// A function that other files see is held to the capabilities that it declares,
/// one that they do not see to none. What its body needs is noted where the
/// function starts and, where its body has an id, under that id, and nowhere
/// else.
pub proof fn promised_capabilities_are_checked<
    K: Fn(InferCtx, &String, Option<CapabilitySet>, &Expr, Span) -> (InferCtx, CapabilitySet),
>(
    check: K,
    c: InferCtx,
    d: InferCtx,
    m0: Map<u32, CapabilitySet>,
    m1: Map<u32, CapabilitySet>,
    f: FnDecl,
    e: Expr,
    promise: Option<CapabilitySet>,
)
    requires
        caps_checked(check, c, d, m0, m1, f),
        f.body == Body::Expr(e),
        f.file_private ==> promise is None,
        !f.file_private ==> promise == Some(f.caps),
    ensures
        exists|out: (InferCtx, CapabilitySet)|
            #![trigger call_ensures(check, (c, &f.name.text, promise, &e, f.span), out)]
            {
                &&& call_ensures(check, (c, &f.name.text, promise, &e, f.span), out)
                &&& d == out.0
                &&& m1.dom().contains(f.span.start) && m1[f.span.start] == out.1
                &&& body_id(d.node_ids, e) matches Some(id) ==> m1.dom().contains(id) && m1[id]
                    == out.1
                &&& forall|k: u32|
                    k != f.span.start && body_id(d.node_ids, e) != Some(k) ==> (
                    #[trigger] m1.dom().contains(k) <==> m0.dom().contains(k)) && (
                    m0.dom().contains(k) ==> m1[k] == m0[k])
            },
{
    let out = choose|out: (InferCtx, CapabilitySet)|
        #![trigger call_ensures(check, (c, &f.name.text, promise, &e, f.span), out)]
        call_ensures(check, (c, &f.name.text, promise, &e, f.span), out) && d == out.0 && m1
            == with_caps(m0, out.0.node_ids, f, e, out.1);
    assert(call_ensures(check, (c, &f.name.text, promise, &e, f.span), out));
}

/// The signature of a handler is found by how many handlers stand before it.
pub proof fn handlers_are_counted(members: Seq<ActorMember>, k: nat)
    requires
        k <= members.len(),
    ensures
        handlers_before(members, k) == members.take(k as int).filter(
            |m: ActorMember| m is On,
        ).len(),
    decreases k,
{
    let on = |m: ActorMember| m is On;
    if k == 0 {
        assert(members.take(0) =~= Seq::empty());
        reveal(Seq::filter);
    } else {
        handlers_are_counted(members, (k - 1) as nat);
        assert(members.take(k as int).drop_last() =~= members.take(k - 1));
        assert(members.take(k as int).last() == members[k - 1]);
        reveal(Seq::filter);
    }
}

/// An actor is found by the name that its module refers to it by.
pub proof fn actors_are_found(
    c: InferCtx,
    tycons: Seq<TyConDecl>,
    name: Seq<char>,
    id: TyConId,
)
    requires
        by_name(c.user_tycon_names@).dom().contains(name),
        by_name(c.user_tycon_names@)[name] == id,
        id.0 < tycons.len(),
    ensures
        tycons[id.0 as int].kind matches TyConKind::Actor(schema) ==> actor_of(c, tycons, name)
            == Some(schema),
        !(tycons[id.0 as int].kind is Actor) ==> actor_of(c, tycons, name) is None,
{
}

/// The capabilities of every function with a body are checked, against what the
/// function promises, and noted.
pub proof fn no_function_is_passed_over<
    K: Fn(InferCtx, &String, Option<CapabilitySet>, &Expr, Span) -> (InferCtx, CapabilitySet),
>(
    check: K,
    c: InferCtx,
    d: InferCtx,
    m: Map<u32, CapabilitySet>,
    fns: Seq<FnDecl>,
    k: nat,
    i: int,
    e: Expr,
    promise: Option<CapabilitySet>,
)
    requires
        all_caps_checked(check, c, d, m, fns, k),
        0 <= i < k <= fns.len(),
        fns[i].body == Body::Expr(e),
        fns[i].file_private ==> promise is None,
        !fns[i].file_private ==> promise == Some(fns[i].caps),
    ensures
        m.dom().contains(fns[i].span.start),
        exists|a: InferCtx, out: (InferCtx, CapabilitySet)| #[trigger]
            call_ensures(check, (a, &fns[i].name.text, promise, &e, fns[i].span), out),
    decreases k,
{
    let f = fns[k - 1];
    let (a, n) = choose|a: InferCtx, n: Map<u32, CapabilitySet>| #[trigger]
        caps_checked(check, a, d, n, m, f) && all_caps_checked(check, c, a, n, fns, (k - 1) as nat);
    if i < k - 1 {
        no_function_is_passed_over(check, c, a, n, fns, (k - 1) as nat, i, e, promise);
    } else {
        promised_capabilities_are_checked(check, a, d, n, m, f, e, promise);
        let out = choose|out: (InferCtx, CapabilitySet)| #[trigger]
            call_ensures(check, (a, &f.name.text, promise, &e, f.span), out);
        assert(call_ensures(check, (a, &fns[i].name.text, promise, &e, fns[i].span), out));
    }
}

/// Every constant of a module is bound to the type of its value.
pub proof fn no_constant_is_passed_over<F: Fn(InferCtx, &Expr) -> (InferCtx, Type)>(
    infer: F,
    c: InferCtx,
    d: InferCtx,
    consts: Seq<ConstDecl>,
    k: nat,
    i: int,
)
    requires
        consts_bound(infer, c, d, consts, k),
        0 <= i < k <= consts.len(),
    ensures
        exists|a: InferCtx, b: InferCtx| #[trigger] const_bound(infer, a, b, consts[i]),
    decreases k,
{
    let decl = consts[k - 1];
    let m = choose|m: InferCtx| #[trigger]
        const_bound(infer, m, d, decl) && consts_bound(infer, c, m, consts, (k - 1) as nat);
    if i < k - 1 {
        no_constant_is_passed_over(infer, c, m, consts, (k - 1) as nat, i);
    } else {
        assert(const_bound(infer, m, d, consts[i]));
    }
}

/// Every handler of an actor is looked at, by the signature that stands at its
/// place among the handlers.
pub proof fn no_handler_is_passed_over<
    F: Fn(InferCtx, &Expr) -> (InferCtx, Type),
    P: Fn(InferCtx, &Pattern, &Type, Span) -> InferCtx,
>(
    infer: F,
    bind: P,
    c: InferCtx,
    d: InferCtx,
    schema: ActorSchema,
    members: Seq<ActorMember>,
    k: nat,
    i: int,
    h: HandlerDecl,
    place: int,
)
    requires
        members_checked(infer, bind, c, d, schema, members, k),
        0 <= i < k <= members.len(),
        members[i] == ActorMember::On(h),
        place == members.take(i).filter(|m: ActorMember| m is On).len(),
        place < schema.handlers@.len(),
    ensures
        exists|a: InferCtx, b: InferCtx| #[trigger]
            handler_checked(
                infer,
                bind,
                a,
                b,
                schema.state_fields@,
                h,
                schema.handlers@[place],
            ),
    decreases k,
{
    let member = members[k - 1];
    let at = handlers_before(members, (k - 1) as nat);
    let m = choose|m: InferCtx| #[trigger]
        member_checked(infer, bind, m, d, schema, member, at) && members_checked(
            infer,
            bind,
            c,
            m,
            schema,
            members,
            (k - 1) as nat,
        );
    if i < k - 1 {
        no_handler_is_passed_over(
            infer,
            bind,
            c,
            m,
            schema,
            members,
            (k - 1) as nat,
            i,
            h,
            place,
        );
    } else {
        handlers_are_counted(members, i as nat);
        assert(handler_checked(
            infer,
            bind,
            m,
            d,
            schema.state_fields@,
            h,
            schema.handlers@[place],
        ));
    }
}

/// Every actor of a module has its handlers looked at.
pub proof fn no_actor_is_passed_over<
    F: Fn(InferCtx, &Expr) -> (InferCtx, Type),
    P: Fn(InferCtx, &Pattern, &Type, Span) -> InferCtx,
>(
    infer: F,
    bind: P,
    c: InferCtx,
    d: InferCtx,
    tycons: Seq<TyConDecl>,
    items: Seq<Item>,
    k: nat,
    i: int,
    decl: ActorDecl,
)
    requires
        items_walked(infer, bind, c, d, tycons, items, k),
        0 <= i < k <= items.len(),
        items[i] == Item::Actor(decl),
    ensures
        exists|a: InferCtx, b: InferCtx| #[trigger]
            item_walked(infer, bind, a, b, tycons, items[i]) && (actor_of(
                a,
                tycons,
                decl.name.text@,
            ) matches Some(schema) ==> members_checked(
                infer,
                bind,
                a,
                b,
                schema,
                decl.members@,
                decl.members@.len(),
            )),
    decreases k,
{
    let item = items[k - 1];
    let m = choose|m: InferCtx| #[trigger]
        item_walked(infer, bind, m, d, tycons, item) && items_walked(
            infer,
            bind,
            c,
            m,
            tycons,
            items,
            (k - 1) as nat,
        );
    if i < k - 1 {
        no_actor_is_passed_over(infer, bind, c, m, tycons, items, (k - 1) as nat, i, decl);
    } else {
        assert(item_walked(infer, bind, m, d, tycons, items[i]));
    }
}

} // verus!

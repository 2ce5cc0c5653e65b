use rustc_hash::FxHashMap;
use vstd::prelude::*;

use crate::fx::{by_name, get_name, put_name};
use crate::seeds::{app1, app2, con1, con2, fn_type, no_types, pure_fn, with_type};
use crate::types::{
    preds, views, BuiltinTyCons, CapVid, Constraint, Poly, Pred, Scheme, Ty, TyConId, TyVid, Type,
    UnionSchema, UnionVariant, VariantPayload,
};

verus! {

broadcast use crate::types::group_views;

/// The scheme of a constructor over the parameters of its type.
pub open spec fn ctor(vars: Seq<TyVid>, params: Seq<Ty>, ret: Ty) -> Poly {
    Poly {
        vars,
        cap_vars: Seq::empty(),
        ty: pure_fn(params, ret),
        constraints: Seq::empty(),
    }
}

fn ctor_scheme(vars: Vec<TyVid>, params: Vec<Type>, ret: Type) -> (r: Scheme)
    ensures
        r@ == ctor(vars@, views(params@), ret@),
{
    let constraints: Vec<Constraint> = Vec::new();
    let cap_vars: Vec<CapVid> = Vec::new();
    assert(preds(constraints@) =~= Seq::<Pred>::empty());
    let r = Scheme { vars, cap_vars, ty: fn_type(params, ret), constraints };
    assert(r@ =~= ctor(vars@, views(params@), ret@));
    r
}

/// The constructors that are in scope everywhere.
pub open spec fn prelude_value(b: BuiltinTyCons, name: Seq<char>) -> Option<Poly> {
    let option = app1(b.option, Ty::Var(TyVid(0)));
    let result = app2(b.result, Ty::Var(TyVid(0)), Ty::Var(TyVid(1)));
    if name == "Err"@ {
        Some(ctor(seq![TyVid(0), TyVid(1)], seq![Ty::Var(TyVid(1))], result))
    } else if name == "Ok"@ {
        Some(ctor(seq![TyVid(0), TyVid(1)], seq![Ty::Var(TyVid(0))], result))
    } else if name == "None"@ {
        Some(ctor(seq![TyVid(0)], Seq::empty(), option))
    } else if name == "Some"@ {
        Some(ctor(seq![TyVid(0)], seq![Ty::Var(TyVid(0))], option))
    } else {
        None
    }
}

/// The types that are in scope everywhere.
pub open spec fn prelude_tycon(b: BuiltinTyCons, name: Seq<char>) -> Option<TyConId> {
    if name == "Result"@ {
        Some(b.result)
    } else if name == "Option"@ {
        Some(b.option)
    } else if name == "Set"@ {
        Some(b.set)
    } else if name == "Map"@ {
        Some(b.map)
    } else if name == "List"@ {
        Some(b.list)
    } else if name == "Text"@ {
        Some(b.text)
    } else if name == "Bool"@ {
        Some(b.bool)
    } else if name == "Float"@ {
        Some(b.float)
    } else if name == "Int"@ {
        Some(b.int)
    } else {
        None
    }
}

/// A map holds the constructors that are in scope everywhere, and no others.
pub open spec fn holds_values(m: Map<String, Scheme>, b: BuiltinTyCons) -> bool {
    forall|name: Seq<char>|
        {
            let found = #[trigger] by_name(m).dom().contains(name);
            &&& found <==> prelude_value(b, name) is Some
            &&& found ==> prelude_value(b, name) == Some(by_name(m)[name]@)
        }
}

/// A map holds the types that are in scope everywhere, and no others.
pub open spec fn holds_tycons(m: Map<String, TyConId>, b: BuiltinTyCons) -> bool {
    forall|name: Seq<char>|
        {
            let found = #[trigger] by_name(m).dom().contains(name);
            &&& found <==> prelude_tycon(b, name) is Some
            &&& found ==> prelude_tycon(b, name) == Some(by_name(m)[name])
        }
}

fn one_var() -> (r: Vec<TyVid>)
    ensures
        r@ == seq![TyVid(0)],
{
    let mut vs: Vec<TyVid> = Vec::new();
    vs.push(TyVid(0));
    assert(vs@ =~= seq![TyVid(0)]);
    vs
}

fn two_vars() -> (r: Vec<TyVid>)
    ensures
        r@ == seq![TyVid(0), TyVid(1)],
{
    let mut vs: Vec<TyVid> = Vec::new();
    vs.push(TyVid(0));
    vs.push(TyVid(1));
    assert(vs@ =~= seq![TyVid(0), TyVid(1)]);
    vs
}

/// The scheme of the constructor that is in scope everywhere under a name.
#[must_use]
pub fn lookup_prelude(b: &BuiltinTyCons, name: &str) -> (r: Option<Scheme>)
    ensures
        r is Some <==> prelude_value(*b, name@) is Some,
        r matches Some(s) ==> prelude_value(*b, name@) == Some(s@),
{
    let (values, _) = prelude_types(b);
    match get_name(&values, name) {
        Some(s) => Some(s.clone()),
        None => None,
    }
}

/// The type that is in scope everywhere under a name.
#[must_use]
pub fn lookup_prelude_tycon(b: &BuiltinTyCons, name: &str) -> (r: Option<TyConId>)
    ensures
        r == prelude_tycon(*b, name@),
{
    let (_, tycons) = prelude_types(b);
    match get_name(&tycons, name) {
        Some(id) => Some(*id),
        None => None,
    }
}

pub(crate) fn some_scheme(b: &BuiltinTyCons) -> (r: Scheme)
    ensures
        r@ == ctor(seq![TyVid(0)], seq![Ty::Var(TyVid(0))], app1(b.option, Ty::Var(TyVid(0)))),
{
    ctor_scheme(
        one_var(),
        with_type(no_types(), Type::Var(TyVid(0))),
        con1(b.option, Type::Var(TyVid(0))),
    )
}

pub(crate) fn none_scheme(b: &BuiltinTyCons) -> (r: Scheme)
    ensures
        r@ == ctor(seq![TyVid(0)], Seq::empty(), app1(b.option, Ty::Var(TyVid(0)))),
{
    ctor_scheme(one_var(), no_types(), con1(b.option, Type::Var(TyVid(0))))
}

pub(crate) fn ok_scheme(b: &BuiltinTyCons) -> (r: Scheme)
    ensures
        r@ == ctor(seq![TyVid(0), TyVid(1)], seq![Ty::Var(TyVid(0))], app2(b.result, Ty::Var(TyVid(0)), Ty::Var(TyVid(1)))),
{
    ctor_scheme(
        two_vars(),
        with_type(no_types(), Type::Var(TyVid(0))),
        con2(b.result, Type::Var(TyVid(0)), Type::Var(TyVid(1))),
    )
}

pub(crate) fn err_scheme(b: &BuiltinTyCons) -> (r: Scheme)
    ensures
        r@ == ctor(seq![TyVid(0), TyVid(1)], seq![Ty::Var(TyVid(1))], app2(b.result, Ty::Var(TyVid(0)), Ty::Var(TyVid(1)))),
{
    ctor_scheme(
        two_vars(),
        with_type(no_types(), Type::Var(TyVid(1))),
        con2(b.result, Type::Var(TyVid(0)), Type::Var(TyVid(1))),
    )
}

/// The constructors and the types that are in scope everywhere, by name.
#[must_use]
pub fn prelude_types(b: &BuiltinTyCons) -> (r: (
    FxHashMap<String, Scheme>,
    FxHashMap<String, TyConId>,
))
    ensures
        holds_values(r.0@, *b),
        holds_tycons(r.1@, *b),
{
    let mut values: FxHashMap<String, Scheme> = FxHashMap::default();
    assert(by_name(values@) =~= Map::<Seq<char>, Scheme>::empty());
    put_name(&mut values, "Some".to_owned(), some_scheme(b));
    put_name(&mut values, "None".to_owned(), none_scheme(b));
    put_name(&mut values, "Ok".to_owned(), ok_scheme(b));
    put_name(&mut values, "Err".to_owned(), err_scheme(b));

    let mut tycons: FxHashMap<String, TyConId> = FxHashMap::default();
    assert(by_name(tycons@) =~= Map::<Seq<char>, TyConId>::empty());
    put_name(&mut tycons, "Int".to_owned(), b.int);
    put_name(&mut tycons, "Float".to_owned(), b.float);
    put_name(&mut tycons, "Bool".to_owned(), b.bool);
    put_name(&mut tycons, "Text".to_owned(), b.text);
    put_name(&mut tycons, "List".to_owned(), b.list);
    put_name(&mut tycons, "Map".to_owned(), b.map);
    put_name(&mut tycons, "Set".to_owned(), b.set);
    put_name(&mut tycons, "Option".to_owned(), b.option);
    put_name(&mut tycons, "Result".to_owned(), b.result);

    (values, tycons)
}

/// A variant with a name and what it carries.
pub open spec fn is_variant(v: UnionVariant, name: Seq<char>, carries: Seq<Ty>) -> bool {
    v.name@ == name && match v.kind {
        VariantPayload::Nullary => carries.len() == 0,
        VariantPayload::Positional(ts) => carries.len() > 0 && views(ts@) == carries,
    }
}

fn variant(name: &str, carries: Vec<Type>) -> (r: UnionVariant)
    ensures
        is_variant(r, name@, views(carries@)),
{
    if carries.len() == 0 {
        UnionVariant { name: name.to_owned(), kind: VariantPayload::Nullary }
    } else {
        UnionVariant { name: name.to_owned(), kind: VariantPayload::Positional(carries) }
    }
}

/// The declaration of the built-in `Option` and `Result`.
#[must_use]
pub fn get_prelude_union_schema(b: &BuiltinTyCons, id: TyConId) -> (r: UnionSchema)
    requires
        id == b.option || id == b.result,
    ensures
        r.variants@.len() == 2,
        id == b.option ==> {
            &&& r.params@ == seq![TyVid(0)]
            &&& is_variant(r.variants@[0], "Some"@, seq![Ty::Var(TyVid(0))])
            &&& is_variant(r.variants@[1], "None"@, Seq::empty())
        },
        id != b.option ==> {
            &&& r.params@ == seq![TyVid(0), TyVid(1)]
            &&& is_variant(r.variants@[0], "Ok"@, seq![Ty::Var(TyVid(0))])
            &&& is_variant(r.variants@[1], "Err"@, seq![Ty::Var(TyVid(1))])
        },
{
    let mut variants: Vec<UnionVariant> = Vec::new();
    if id.0 == b.option.0 {
        variants.push(variant("Some", with_type(no_types(), Type::Var(TyVid(0)))));
        variants.push(variant("None", no_types()));
        UnionSchema { params: one_var(), variants }
    } else {
        variants.push(variant("Ok", with_type(no_types(), Type::Var(TyVid(0)))));
        variants.push(variant("Err", with_type(no_types(), Type::Var(TyVid(1)))));
        UnionSchema { params: two_vars(), variants }
    }
}

} // verus!

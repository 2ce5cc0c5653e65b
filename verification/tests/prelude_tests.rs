use ridge_typecheck::prelude::{
    get_prelude_union_schema, lookup_prelude, lookup_prelude_tycon, prelude_types,
};
use ridge_typecheck::types::{
    BuiltinTyCons, CapRow, CapabilitySet, TyConId, TyVid, Type, VariantPayload,
};

fn builtins() -> BuiltinTyCons {
    BuiltinTyCons {
        int: TyConId(0),
        float: TyConId(1),
        bool: TyConId(2),
        text: TyConId(3),
        unit: TyConId(4),
        list: TyConId(5),
        map: TyConId(6),
        set: TyConId(7),
        option: TyConId(8),
        result: TyConId(9),
        handle: TyConId(10),
        timestamp: TyConId(11),
        error: TyConId(12),
        duration: TyConId(13),
        proc_output: TyConId(14),
        decimal: TyConId(16),
        uuid: TyConId(17),
        bytes: TyConId(18),
        date: TyConId(19),
        time: TyConId(20),
        json_value: TyConId(21),
        sql_value: TyConId(22),
        quote: TyConId(23),
        ret: TyConId(24),
        rows: TyConId(25),
        q_expr: TyConId(26),
    }
}

#[test]
fn some_scheme_exact_shape() {
    let b = builtins();
    let scheme = lookup_prelude(&b, "Some").expect("Some must be in prelude");

    // vars: exactly [TyVid(0)]
    assert_eq!(scheme.vars, vec![TyVid(0)], "Some must be ∀ a");
    assert!(scheme.cap_vars.is_empty(), "Some has no cap vars");

    match &scheme.ty {
        Type::Fn { params, ret, caps } => {
            // params: [Var(a)]
            assert_eq!(params.len(), 1, "Some takes 1 argument");
            assert!(
                matches!(&params[0], Type::Var(TyVid(0))),
                "Some param must be Var(0)"
            );
            // ret: Option a = Con(b.option, [Var(0)])
            match ret.as_ref() {
                Type::Con(id, args) => {
                    assert_eq!(*id, b.option, "Some ret must be Option");
                    assert_eq!(args.len(), 1, "Option takes 1 arg");
                    assert!(
                        matches!(&args[0], Type::Var(TyVid(0))),
                        "Option arg must be Var(0)"
                    );
                }
                other => panic!("expected Con for Option, got: {other:?}"),
            }
            // caps: Concrete(PURE)
            assert_eq!(
                *caps,
                CapRow::Concrete(CapabilitySet::pure()),
                "Some must be pure"
            );
        }
        other => panic!("Some ty must be Fn, got: {other:?}"),
    }
}

#[test]
fn int_tycon_is_b_int() {
    let b = builtins();
    let id = lookup_prelude_tycon(&b, "Int").expect("Int must be in prelude tycons");
    assert_eq!(id, b.int);
}

#[test]
fn list_tycon_is_b_list() {
    let b = builtins();
    let id = lookup_prelude_tycon(&b, "List").expect("List must be in prelude tycons");
    assert_eq!(id, b.list);
}

#[test]
fn option_tycon_is_b_option() {
    let b = builtins();
    let id = lookup_prelude_tycon(&b, "Option").expect("Option must be in prelude tycons");
    assert_eq!(id, b.option);
}

#[test]
fn bogus_returns_none_from_value_map() {
    let b = builtins();
    assert!(
        lookup_prelude(&b, "Bogus").is_none(),
        "Bogus must not be in the prelude value map"
    );
}

#[test]
fn none_scheme_has_no_params() {
    let b = builtins();
    let scheme = lookup_prelude(&b, "None").expect("None must be in prelude");
    assert_eq!(scheme.vars, vec![TyVid(0)], "None must be ∀ a");
    match &scheme.ty {
        Type::Fn { params, ret, caps } => {
            assert!(params.is_empty(), "None takes no arguments");
            assert!(
                matches!(ret.as_ref(), Type::Con(id, _) if *id == b.option),
                "None ret must be Option _"
            );
            assert_eq!(*caps, CapRow::Concrete(CapabilitySet::pure()));
        }
        other => panic!("None ty must be Fn, got: {other:?}"),
    }
}

#[test]
fn ok_scheme_has_two_vars_and_result_ret() {
    let b = builtins();
    let scheme = lookup_prelude(&b, "Ok").expect("Ok must be in prelude");
    assert_eq!(scheme.vars.len(), 2, "Ok must be ∀ a e");
    match &scheme.ty {
        Type::Fn { params, ret, caps } => {
            assert_eq!(params.len(), 1, "Ok takes 1 argument");
            assert!(
                matches!(ret.as_ref(), Type::Con(id, args) if *id == b.result && args.len() == 2),
                "Ok ret must be Result _ _"
            );
            assert_eq!(*caps, CapRow::Concrete(CapabilitySet::pure()));
        }
        other => panic!("Ok ty must be Fn, got: {other:?}"),
    }
}

#[test]
fn err_scheme_has_two_vars_and_result_ret() {
    let b = builtins();
    let scheme = lookup_prelude(&b, "Err").expect("Err must be in prelude");
    assert_eq!(scheme.vars.len(), 2, "Err must be ∀ a e");
    match &scheme.ty {
        Type::Fn { params, ret, .. } => {
            assert_eq!(params.len(), 1, "Err takes 1 argument");
            assert!(
                matches!(ret.as_ref(), Type::Con(id, args) if *id == b.result && args.len() == 2),
                "Err ret must be Result _ _"
            );
        }
        other => panic!("Err ty must be Fn, got: {other:?}"),
    }
}

#[test]
fn seven_primitive_tycons_present() {
    let b = builtins();
    for name in &["Int", "Float", "Bool", "Text", "List", "Map", "Set"] {
        assert!(
            lookup_prelude_tycon(&b, name).is_some(),
            "tycon '{name}' missing from prelude"
        );
    }
}

#[test]
fn lowercase_some_is_not_in_prelude() {
    let b = builtins();
    assert!(lookup_prelude(&b, "some").is_none());
    assert!(lookup_prelude(&b, "none").is_none());
    assert!(lookup_prelude(&b, "ok").is_none());
    assert!(lookup_prelude(&b, "err").is_none());
}

/// Each name that the prelude binds has a value or a type, but for the one that
/// names a module alone.
#[test]
fn all_prelude_resolution_names_covered() {
    let b = builtins();
    let (values, tycons) = prelude_types(&b);
    for name in [
        "Option", "Some", "None", "Result", "Ok", "Err", "Int", "Float", "Bool", "Text", "List",
        "Map", "Set",
    ] {
        assert!(
            values.contains_key(name) || tycons.contains_key(name),
            "prelude name '{name}' has no entry in prelude_types()"
        );
    }
    assert!(!values.contains_key("Json") && !tycons.contains_key("Json"));
}

#[test]
fn the_two_prelude_unions() {
    let b = builtins();
    let option = get_prelude_union_schema(&b, b.option);
    assert_eq!(option.params, vec![TyVid(0)]);
    assert_eq!(option.variants.len(), 2);
    assert_eq!(option.variants[0].name, "Some");
    assert!(matches!(
        &option.variants[0].kind,
        VariantPayload::Positional(ts) if matches!(ts[..], [Type::Var(TyVid(0))])
    ));
    assert_eq!(option.variants[1].name, "None");
    assert!(matches!(option.variants[1].kind, VariantPayload::Nullary));
    let result = get_prelude_union_schema(&b, b.result);
    assert_eq!(result.params, vec![TyVid(0), TyVid(1)]);
    assert_eq!(result.variants[0].name, "Ok");
    assert_eq!(result.variants[1].name, "Err");
    assert!(matches!(
        &result.variants[1].kind,
        VariantPayload::Positional(ts) if matches!(ts[..], [Type::Var(TyVid(1))])
    ));
}

#[test]
fn no_other_type_is_in_the_prelude() {
    let b = builtins();
    for name in ["Handle", "Error", "Duration", "ProcOutput", "Json", "Unit"] {
        assert!(lookup_prelude_tycon(&b, name).is_none(), "{name}");
    }
    let (_, tycons) = prelude_types(&b);
    assert_eq!(tycons.len(), 9);
}

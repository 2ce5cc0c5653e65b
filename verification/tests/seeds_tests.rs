use ridge_typecheck::classes::{ClassInfo, ClassTable, MethodSig};
use ridge_typecheck::class_seeds::seed_class_method_schemes;
use ridge_typecheck::codec_seeds::{seed_prelude_codec_schemes, seed_sql_codec_schemes};
use ridge_typecheck::ctx::InferCtx;
use ridge_typecheck::heads::{collect_head_vars, TypeExpr};
use ridge_typecheck::instantiate::monoscheme;
use ridge_typecheck::query_seeds::{
    seed_aggregable_scheme, seed_countable_scheme, seed_decodable_scheme, seed_every_scheme,
    seed_groupable_scheme, seed_orderable_scheme, seed_pageable_scheme, seed_projectable_scheme,
    seed_refinable_scheme, seed_summarizable_scheme,
};
use ridge_typecheck::render::render_type_with;
use ridge_typecheck::setup::{bind_imported_schemes, seed_methods};
use ridge_typecheck::stdlib_env::{
    seed_stdlib_env, Binding, EffectiveBinding, ImportResolution, ImportTarget, Stdlib, StdlibCtor,
    StdlibModule, StdlibSignature,
};
use ridge_typecheck::types::{
    BuiltinTyCons, CapabilitySet, ClassId, Scheme, TyConDecl, TyConId, TyConKind, TyVid, Type,
};
use rustc_hash::FxHashMap;

fn builtins() -> BuiltinTyCons {
    BuiltinTyCons {
        int: TyConId(0),
        float: TyConId(1),
        bool: TyConId(2),
        text: TyConId(3),
        unit: TyConId(4),
        list: TyConId(5),
        map: TyConId(6),
        set: TyConId(7),
        option: TyConId(8),
        result: TyConId(9),
        handle: TyConId(10),
        timestamp: TyConId(11),
        error: TyConId(12),
        duration: TyConId(13),
        proc_output: TyConId(14),
        decimal: TyConId(16),
        uuid: TyConId(17),
        bytes: TyConId(18),
        date: TyConId(19),
        time: TyConId(20),
        json_value: TyConId(21),
        sql_value: TyConId(22),
        quote: TyConId(23),
        ret: TyConId(24),
        rows: TyConId(25),
        q_expr: TyConId(26),
    }
}

fn con(id: TyConId) -> Type {
    Type::Con(id, vec![])
}

fn context() -> InferCtx {
    let mut ctx = InferCtx::new();
    ctx.env.push_frame();
    ctx
}

const CLASSES: [&str; 14] = [
    "SqlType",
    "Row",
    "Adapter",
    "Refinable",
    "Projectable",
    "Orderable",
    "Aggregable",
    "Decodable",
    "Pageable",
    "Countable",
    "Every",
    "Groupable",
    "Summarizable",
    "Joinable",
];

fn class_table() -> ClassTable {
    ClassTable {
        classes: CLASSES
            .iter()
            .enumerate()
            .map(|(i, n)| ClassInfo {
                id: ClassId(i as u32),
                name: (*n).to_string(),
                superclasses: vec![],
                fundeps: vec![],
                method_sigs: vec![],
            })
            .collect(),
    }
}

fn names() -> Vec<TyConDecl> {
    let text = [
        "Int", "Float", "Bool", "Text", "Unit", "List", "Map", "Set", "Option", "Result", "Handle",
        "Timestamp", "Error", "Duration", "ProcOutput", "Ordering", "Decimal", "Uuid", "Bytes",
        "Date", "Time", "JsonValue", "SqlValue", "Quote", "Ret", "Rows", "QExpr",
    ];
    text.iter()
        .enumerate()
        .map(|(i, n)| TyConDecl {
            id: TyConId(i as u32),
            name: (*n).to_string(),
            arity: 0,
            kind: TyConKind::Primitive,
            def_module_raw: None,
            opaque: false,
            is_anon: false,
        })
        .collect()
}

fn scheme(ctx: &InferCtx, name: &str) -> Scheme {
    match ctx.env.lookup(name) {
        Some(s) => s.clone(),
        None => panic!("`{name}` is not bound"),
    }
}

/// The type of a binding, and the class that it is constrained by.
fn shown(ctx: &InferCtx, name: &str) -> (String, u32) {
    let s = scheme(ctx, name);
    assert_eq!(s.constraints.len(), 1, "{name}");
    for v in &s.constraints[0].tys {
        assert!(s.vars.contains(v), "{name}");
    }
    (render_type_with(&s.ty, &names()), s.constraints[0].class.0)
}

/// Enough of reading written types for the signatures of these tests: a name that
/// is not known becomes a new variable.
fn convert(
    ctx: InferCtx,
    t: &TypeExpr,
    types: &FxHashMap<String, TyConId>,
    vars: &FxHashMap<String, TyVid>,
) -> (InferCtx, Type) {
    let mut ctx = ctx;
    match t {
        TypeExpr::Primitive { name } => {
            let at = names().iter().position(|d| &d.name == name);
            match at {
                Some(i) => (ctx, con(TyConId(i as u32))),
                None => (ctx, Type::Error),
            }
        }
        TypeExpr::Named { name } => match types.get(name) {
            Some(id) => (ctx, con(*id)),
            None => {
                let v = ctx.fresh_tyvid();
                (ctx, Type::Var(v))
            }
        },
        TypeExpr::Var { name } => match vars.get(name) {
            Some(v) => (ctx, Type::Var(*v)),
            None => {
                let v = ctx.fresh_tyvid();
                (ctx, Type::Var(v))
            }
        },
        _ => (ctx, Type::Error),
    }
}

fn tvar(n: &str) -> TypeExpr {
    TypeExpr::Var { name: n.to_string() }
}

fn named(n: &str) -> TypeExpr {
    TypeExpr::Named { name: n.to_string() }
}

fn prim(n: &str) -> TypeExpr {
    TypeExpr::Primitive { name: n.to_string() }
}

fn sig(name: &str, vars: &[&str], params: Vec<TypeExpr>, ret: Option<TypeExpr>) -> MethodSig {
    MethodSig {
        name: name.to_string(),
        class_ty_vars: vars.iter().map(|v| (*v).to_string()).collect(),
        ast_param_types: params,
        ast_ret_type: ret,
    }
}

fn type_map(entries: &[(&str, TyConId)]) -> FxHashMap<String, TyConId> {
    entries.iter().map(|(n, id)| ((*n).to_string(), *id)).collect()
}

#[test]
fn a_method_is_bound_under_its_class() {
    let mut ctx = context();
    let _ = ctx.fresh_tyvid();
    let mut ct = class_table();
    ct.classes[1].method_sigs.push(sig("describe", &["a"], vec![tvar("a")], Some(prim("Text"))));
    let ctx = seed_class_method_schemes(ctx, &ct, &type_map(&[]), &convert);
    assert_eq!(shown(&ctx, "describe"), ("(a) -> Text".to_string(), 1));
    assert!(!scheme(&ctx, "describe").vars.contains(&TyVid(0)));
}

#[test]
fn a_type_of_the_module_wins_in_a_signature() {
    let b = builtins();
    let global = type_map(&[("SqlValue", b.sql_value), ("User", b.uuid)]);
    let mut ct = class_table();
    ct.classes[0].method_sigs.push(sig("toSql", &["a"], vec![tvar("a")], Some(named("SqlValue"))));
    ct.classes[0].method_sigs.push(sig("owner", &["a"], vec![tvar("a")], Some(named("User"))));

    let ctx = seed_class_method_schemes(context(), &ct, &global, &convert);
    assert_eq!(shown(&ctx, "toSql"), ("(a) -> SqlValue".to_string(), 0));
    assert_eq!(shown(&ctx, "owner"), ("(a) -> Uuid".to_string(), 0));

    let mut local = context();
    local.user_tycon_names = type_map(&[("SqlValue", b.bytes)]);
    let local = seed_class_method_schemes(local, &ct, &global, &convert);
    assert_eq!(shown(&local, "toSql"), ("(a) -> Bytes".to_string(), 0));
    assert_eq!(shown(&local, "owner"), ("(a) -> Uuid".to_string(), 0));
    assert_eq!(local.user_tycon_names.len(), 1);
}

#[test]
fn the_variables_of_a_signature_go_by_their_names() {
    let mut ct = class_table();
    ct.classes[2].method_sigs.push(sig(
        "pair",
        &["a", "b"],
        vec![tvar("b"), tvar("a")],
        Some(tvar("b")),
    ));
    ct.classes[2].method_sigs.push(sig("last", &["a", "", "a"], vec![tvar("a")], Some(tvar("a"))));
    ct.classes[2].method_sigs.push(sig("bare", &[], vec![prim("Int")], Some(prim("Int"))));
    let ctx = seed_class_method_schemes(context(), &ct, &type_map(&[]), &convert);
    let pair = scheme(&ctx, "pair");
    assert_eq!(pair.vars, vec![TyVid(0), TyVid(1)]);
    match &pair.ty {
        Type::Fn { params, ret, .. } => {
            assert!(matches!(params[0], Type::Var(TyVid(1))));
            assert!(matches!(params[1], Type::Var(TyVid(0))));
            assert!(matches!(**ret, Type::Var(TyVid(1))));
        }
        other => panic!("{other:?}"),
    }
    let last = scheme(&ctx, "last");
    assert_eq!(last.vars, vec![TyVid(2), TyVid(3), TyVid(4)]);
    assert!(matches!(&last.ty, Type::Fn { params, .. } if matches!(params[0], Type::Var(TyVid(4)))));
    assert_eq!(scheme(&ctx, "bare").vars, vec![TyVid(5)]);
    assert_eq!(shown(&ctx, "bare"), ("(Int) -> Int".to_string(), 2));
}

#[test]
fn a_method_without_types_is_not_bound() {
    let mut ct = class_table();
    ct.classes[0].method_sigs.push(sig("toText", &["a"], vec![tvar("a")], None));
    ct.classes[0].method_sigs.push(sig("empty", &["a"], vec![], Some(tvar("a"))));
    let ctx = seed_class_method_schemes(context(), &ct, &type_map(&[]), &convert);
    assert!(ctx.env.lookup("toText").is_none());
    assert!(ctx.env.lookup("empty").is_none());
    assert_eq!(ctx.vars.len(), 0);
}

#[test]
fn the_codecs_of_the_prelude() {
    let b = builtins();
    let mut ctx = context();
    seed_prelude_codec_schemes(&mut ctx, &b, ClassId(70), ClassId(71));
    let bound: Vec<String> =
        ctx.env.frames[0].bindings.iter().map(|(n, _)| n.clone()).collect();
    assert_eq!(shown(&ctx, "encode"), ("(a) -> JsonValue".to_string(), 70));
    assert_eq!(shown(&ctx, "decode"), ("(JsonValue) -> Result a Error".to_string(), 71));
    for name in &bound {
        let class = shown(&ctx, name).1;
        assert!(class == 70 || class == 71, "{name}");
    }
}

#[test]
fn the_codecs_of_the_database() {
    let b = builtins();
    let mut ctx = context();
    seed_sql_codec_schemes(&mut ctx, &b, &class_table(), b.sql_value);
    for (name, ty, class) in [
        ("toSql", "(a) -> SqlValue", 0),
        ("fromSql", "(SqlValue) -> Result a Error", 0),
        ("fromRow", "(Map Text SqlValue) -> Result a Error", 1),
        ("toRow", "(a) -> Map Text SqlValue", 1),
        ("all", "(a, Text) -> Result List Map Text SqlValue Error", 2),
        ("aggregate", "(a, Text, Quote (b) -> Bool, Text, Text) -> Result Option SqlValue Error", 2),
        (
            "joinSelect",
            "(a, Text, Text, Quote b, Quote c, Quote d, List (Bool, Bool, Text), Int, Int, Quote e) \
             -> Result List Map Text SqlValue Error",
            2,
        ),
        (
            "aggregateFullJoin",
            "(a, Text, Text, Quote b, Quote c, Quote d, Text, Text, Bool) \
             -> Result Option SqlValue Error",
            2,
        ),
    ] {
        assert_eq!(shown(&ctx, name), (ty.to_string(), class), "{name}");
    }
    let mut bare = context();
    seed_sql_codec_schemes(&mut bare, &b, &ClassTable { classes: vec![] }, b.sql_value);
    assert!(bare.env.frames[0].bindings.is_empty());
}

#[test]
fn the_verbs_of_queries() {
    let b = builtins();
    let ct = class_table();
    let mut ctx = context();
    seed_refinable_scheme(&mut ctx, &b, &ct);
    seed_projectable_scheme(&mut ctx, &b, &ct);
    seed_orderable_scheme(&mut ctx, &b, &ct, Some(TyConId(15)));
    seed_aggregable_scheme(&mut ctx, &b, &ct);
    seed_decodable_scheme(&mut ctx, &b, &ct);
    seed_pageable_scheme(&mut ctx, &b, &ct);
    seed_countable_scheme(&mut ctx, &b, &ct);
    seed_every_scheme(&mut ctx, &b, &ct);
    seed_groupable_scheme(&mut ctx, &b, &ct, Some(TyConId(7)));
    seed_summarizable_scheme(&mut ctx, &b, &ct, b.sql_value);
    for (name, ty) in [
        ("filter", "(Quote a, b) -> b"),
        ("select", "(Quote a, b) -> Result List Ret a Error"),
        ("selectFirst", "(Quote a, b) -> Result Option Ret a Error"),
        ("orderBy", "(Ordering, Quote a, b) -> b"),
        ("sumOf", "(Quote a, b) -> Result Option Ret a Error"),
        ("avgOf", "(Quote a, b) -> Result Option Float Error"),
        ("toList", "(a) -> Result List Rows a Error"),
        ("first", "(a) -> Result Option Rows a Error"),
        ("limit", "(Int, a) -> a"),
        ("distinct", "(a) -> a"),
        ("count", "(a) -> Result Int Error"),
        ("exists", "(a) -> Result Bool Error"),
        ("every", "(Quote a, b) -> Result Bool Error"),
        ("groupBy", "(Quote a, b) -> Set b a"),
    ] {
        assert_eq!(shown(&ctx, name).0, ty, "{name}");
    }
    assert_eq!(shown(&ctx, "filter").1, 3);
    for (name, _) in &ctx.env.frames[0].bindings {
        let class = shown(&ctx, name).1;
        assert!((3..=12).contains(&class), "{name}");
    }
    assert!(ctx.env.frames[0].bindings.len() >= 10);
}

#[test]
fn a_verb_without_its_class_is_not_bound() {
    let b = builtins();
    let ct = ClassTable { classes: vec![] };
    let mut ctx = context();
    seed_refinable_scheme(&mut ctx, &b, &ct);
    seed_orderable_scheme(&mut ctx, &b, &ct, None);
    seed_groupable_scheme(&mut ctx, &b, &ct, None);
    assert!(ctx.env.frames[0].bindings.is_empty());
}

#[test]
fn all_methods_of_a_module() {
    let b = builtins();
    let none: FxHashMap<String, TyConId> = FxHashMap::default();
    let mut ct = class_table();
    ct.classes[3].method_sigs.push(sig("refine", &["q"], vec![tvar("q")], Some(tvar("q"))));
    let ctx = seed_methods(
        context(),
        &b,
        &ct,
        ClassId(70),
        ClassId(71),
        &none,
        &none,
        &convert,
    );
    assert_eq!(shown(&ctx, "refine"), ("(a) -> a".to_string(), 3));
    assert!(ctx.env.lookup("filter").is_some());
    assert!(ctx.rows_tycons.is_none());
}

#[test]
fn imported_schemes_are_bound_and_the_later_one_wins() {
    let b = builtins();
    let mut ctx = context();
    bind_imported_schemes(
        &mut ctx,
        &vec![
            ("a".to_string(), monoscheme(con(b.int))),
            ("a".to_string(), monoscheme(con(b.text))),
        ],
    );
    assert!(matches!(scheme(&ctx, "a").ty, Type::Con(i, _) if i == b.text));
}

#[test]
fn the_standard_library_is_reached_by_name_and_by_alias() {
    let b = builtins();
    let lib = Stdlib {
        modules: vec![StdlibModule { exports: vec!["length".to_string(), "head".to_string()] }],
        signatures: vec![StdlibSignature {
            module: 0,
            name: "length".to_string(),
            scheme: monoscheme(con(b.int)),
        }],
        ctors: vec![StdlibCtor { name: "Leaf".to_string(), scheme: monoscheme(con(b.bool)) }],
    };
    let imports = vec![
        ImportResolution {
            target: ImportTarget::Stdlib(0),
            alias: Some("L".to_string()),
            effective_bindings: vec![],
        },
        ImportResolution {
            target: ImportTarget::Stdlib(0),
            alias: None,
            effective_bindings: vec![
                EffectiveBinding {
                    local_name: "len".to_string(),
                    binding: Binding::StdlibSymbol { module: 0, name: "length".to_string() },
                },
                EffectiveBinding {
                    local_name: "Leaf".to_string(),
                    binding: Binding::StdlibSymbol { module: 0, name: "Leaf".to_string() },
                },
            ],
        },
    ];
    let mut ctx = context();
    seed_stdlib_env(&mut ctx, &b, &imports, &lib);
    for name in ["Some", "None", "Ok", "Err"] {
        assert!(ctx.env.lookup(name).is_some(), "{name}");
    }
    assert!(ctx.env.lookup("L.length").is_some());
    assert!(ctx.env.lookup("L.head").is_none());
    assert!(matches!(scheme(&ctx, "len").ty, Type::Con(i, _) if i == b.int));
    assert!(matches!(scheme(&ctx, "Leaf").ty, Type::Con(i, _) if i == b.bool));
}

#[test]
fn the_variables_of_a_head_are_listed_once() {
    let v = |n: &str| TypeExpr::Var { name: n.to_string() };
    let head = vec![
        TypeExpr::App {
            name: "Map".to_string(),
            args: vec![v("a"), TypeExpr::List { elem: Box::new(v("b")) }],
        },
        TypeExpr::Fn {
            params: vec![v("c"), TypeExpr::Primitive { name: "Int".to_string() }],
            ret: Box::new(TypeExpr::Tuple { elems: vec![v("a"), v("d")] }),
            caps: CapabilitySet::pure(),
        },
        TypeExpr::Named { name: "User".to_string() },
    ];
    assert_eq!(collect_head_vars(&head), vec!["a", "b", "c", "d"]);
}

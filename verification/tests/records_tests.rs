use ridge_typecheck::ast::{
    Block, Expr, FieldInit, FieldPattern, Ident, LambdaParam, Literal, Pattern,
};
use ridge_typecheck::ctx::InferCtx;
use ridge_typecheck::error::TypeError;
use ridge_typecheck::instantiate::{generalise, instantiate, monoscheme};
use ridge_typecheck::pipe_propagate::{check_discarded_result, infer_propagate};
use ridge_typecheck::records::{
    attach_span_pub, infer_field_access, infer_record_construction, infer_record_pattern,
    infer_record_with, subst_type,
};
use ridge_typecheck::render::emit_internal;
use ridge_typecheck::suggest::narrow_suggestions;
use ridge_typecheck::types::{
    BuiltinTyCons, CapRow, CapabilitySet, RecordField, RecordSchema, RowTail, Span, TyConDecl,
    TyConId, TyConKind, TyVid, Type,
};
use ridge_typecheck::unify::unify;

fn builtins() -> BuiltinTyCons {
    BuiltinTyCons {
        int: TyConId(0),
        float: TyConId(1),
        bool: TyConId(2),
        text: TyConId(3),
        unit: TyConId(4),
        list: TyConId(5),
        map: TyConId(6),
        set: TyConId(7),
        option: TyConId(8),
        result: TyConId(9),
        handle: TyConId(10),
        timestamp: TyConId(11),
        error: TyConId(12),
        duration: TyConId(13),
        proc_output: TyConId(14),
        decimal: TyConId(16),
        uuid: TyConId(17),
        bytes: TyConId(18),
        date: TyConId(19),
        time: TyConId(20),
        json_value: TyConId(21),
        sql_value: TyConId(22),
        quote: TyConId(23),
        ret: TyConId(24),
        rows: TyConId(25),
        q_expr: TyConId(26),
    }
}

fn ds() -> Span {
    Span::point(0)
}

fn id(text: &str) -> Ident {
    Ident { text: text.to_string(), span: ds() }
}

fn fi(name: &str, value: Option<Expr>) -> FieldInit {
    FieldInit { name: id(name), value, span: ds() }
}

fn fp_short(name: &str) -> FieldPattern {
    FieldPattern { name: id(name), pattern: None, span: ds() }
}

fn int_lit(raw: &str) -> Expr {
    Expr::Literal(Literal::IntDec { raw: raw.to_string(), span: ds() })
}

fn text_lit(raw: &str) -> Expr {
    Expr::Literal(Literal::Text { raw: format!("\"{raw}\""), span: ds() })
}

/// A record of the given fields, without parameters.
fn make_schema(fields: &[(&str, Type)]) -> RecordSchema {
    RecordSchema {
        params: vec![],
        fields: fields
            .iter()
            .map(|(n, t)| RecordField { name: (*n).to_string(), ty: t.clone() })
            .collect(),
    }
}

fn copy(s: &RecordSchema) -> RecordSchema {
    RecordSchema {
        params: s.params.clone(),
        fields: s
            .fields
            .iter()
            .map(|f| RecordField { name: f.name.clone(), ty: f.ty.clone() })
            .collect(),
    }
}

fn decl(id: u32, name: &str, kind: TyConKind) -> TyConDecl {
    TyConDecl {
        id: TyConId(id),
        name: name.to_string(),
        arity: 0,
        kind,
        def_module_raw: None,
        opaque: false,
        is_anon: false,
    }
}

fn builtin_decls() -> Vec<TyConDecl> {
    (0..27).map(|i| decl(i, "Builtin", TyConKind::Primitive)).collect()
}

/// The built-in types, and after them one record.
fn make_arena_with_record(name: &str, schema: RecordSchema) -> (Vec<TyConDecl>, TyConId) {
    let mut arena = builtin_decls();
    let at = arena.len() as u32;
    arena.push(decl(at, name, TyConKind::Record(schema)));
    (arena, TyConId(at))
}

fn construct(
    ctx: &mut InferCtx,
    schema: &RecordSchema,
    owner: TyConId,
    name: &str,
    fields: &Vec<FieldInit>,
) -> Type {
    let taken = std::mem::replace(ctx, InferCtx::new());
    let (c, t) = infer_record_construction(taken, schema, owner, name, fields, ds(), infer);
    *ctx = c;
    t
}

fn update(
    ctx: &mut InferCtx,
    base: &Type,
    fields: &Vec<FieldInit>,
    tycons: &Vec<TyConDecl>,
) -> Type {
    let taken = std::mem::replace(ctx, InferCtx::new());
    let (c, t) = infer_record_with(taken, base, fields, ds(), tycons, infer);
    *ctx = c;
    t
}

fn bind_pattern(ctx: InferCtx, pat: &Pattern, ty: &Type) -> InferCtx {
    let mut ctx = ctx;
    if let Pattern::Var { name, .. } = pat {
        ctx.env.bind(name.text.clone(), monoscheme(ty.clone()));
    }
    ctx
}

fn match_fields(
    ctx: &mut InferCtx,
    schema: &RecordSchema,
    owner: TyConId,
    fields: &Vec<FieldPattern>,
    has_rest: bool,
    expected: &Type,
) {
    let taken = std::mem::replace(ctx, InferCtx::new());
    *ctx = infer_record_pattern(
        taken,
        schema,
        owner,
        "User",
        fields,
        has_rest,
        expected,
        ds(),
        bind_pattern,
    );
}

/// Enough of inference for the expressions of these tests.
fn infer(ctx: InferCtx, e: &Expr) -> (InferCtx, Type) {
    let b = builtins();
    let mut ctx = ctx;
    match e {
        Expr::Literal(Literal::Text { .. }) => (ctx, Type::Con(b.text, vec![])),
        Expr::Literal(Literal::Bool { .. }) => (ctx, Type::Con(b.bool, vec![])),
        Expr::Literal(Literal::Float { .. }) => (ctx, Type::Con(b.float, vec![])),
        Expr::Literal(_) => (ctx, Type::Con(b.int, vec![])),
        Expr::Unit(_) => (ctx, Type::Con(b.unit, vec![])),
        Expr::Ident(id) => {
            let found = ctx.env.lookup(&id.text).cloned();
            match found {
                Some(s) => {
                    let t = instantiate(&mut ctx, &s);
                    (ctx, t)
                }
                None => {
                    let t = emit_internal(&mut ctx, format!("unbound {}", id.text), id.span);
                    (ctx, t)
                }
            }
        }
        Expr::List { elems, .. } => {
            let elem = Type::Var(ctx.fresh_tyvid());
            for x in elems {
                let (c, t) = infer(ctx, x);
                ctx = c;
                if let Err(e) = unify(&mut ctx.vars, &t, &elem) {
                    ctx.errors.push(e);
                }
            }
            (ctx, Type::Con(b.list, vec![elem]))
        }
        Expr::Paren { inner, .. } => infer(ctx, inner),
        Expr::Lambda { params, body, .. } => {
            ctx.env.push_frame();
            let mut tys = vec![];
            for p in params {
                let v = Type::Var(ctx.fresh_tyvid());
                if let LambdaParam::Pattern(Pattern::Var { name, .. }) = p {
                    ctx.env.bind(name.text.clone(), monoscheme(v.clone()));
                }
                tys.push(v);
            }
            let (c, ret) = infer(ctx, body);
            ctx = c;
            ctx.env.pop_frame();
            let caps = CapRow::Concrete(CapabilitySet::pure());
            (ctx, Type::Fn { params: tys, ret: Box::new(ret), caps })
        }
        Expr::Call { callee, args, .. } => {
            let (c, f) = infer(ctx, callee);
            ctx = c;
            let mut params = vec![];
            for a in args {
                let (c, t) = infer(ctx, a);
                ctx = c;
                params.push(t);
            }
            let ret = Type::Var(ctx.fresh_tyvid());
            let caps = CapRow::Concrete(CapabilitySet::pure());
            let want = Type::Fn { params, ret: Box::new(ret.clone()), caps };
            match unify(&mut ctx.vars, &f, &want) {
                Ok(()) => {
                    let t = ctx.deep_resolve(&ret);
                    (ctx, t)
                }
                Err(e) => {
                    ctx.errors.push(e);
                    (ctx, Type::Error)
                }
            }
        }
        Expr::Block(block) => infer_block(ctx, block),
        Expr::Propagate { inner, span } => infer_propagate(ctx, &b, inner, *span, infer),
        Expr::Let { pat, value, .. } => {
            let (c, t) = infer(ctx, value);
            ctx = c;
            if let Pattern::Var { name, .. } = pat {
                let s = generalise(&ctx, &t);
                ctx.env.bind(name.text.clone(), s);
            }
            (ctx, Type::Con(b.unit, vec![]))
        }
        Expr::Var { name, value, .. } => {
            let (c, t) = infer(ctx, value);
            ctx = c;
            ctx.env.bind(name.text.clone(), monoscheme(t));
            (ctx, Type::Con(b.unit, vec![]))
        }
        _ => {
            let t = emit_internal(&mut ctx, "not covered".to_string(), e.span());
            (ctx, t)
        }
    }
}

/// The type of the last statement; the values of the others are not to be lost.
fn infer_block(ctx: InferCtx, block: &Block) -> (InferCtx, Type) {
    let b = builtins();
    let mut ctx = ctx;
    ctx.env.push_frame();
    let mut last = Type::Con(b.unit, vec![]);
    for (i, stmt) in block.stmts.iter().enumerate() {
        let (c, t) = infer(ctx, stmt);
        ctx = c;
        if i + 1 < block.stmts.len() {
            check_discarded_result(&mut ctx, &b, stmt, &t);
        }
        last = t;
    }
    ctx.env.pop_frame();
    (ctx, last)
}

#[test]
fn t1_bare_ctor_happy_path_user() {
    let schema = make_schema(&[
        ("name", Type::Con(TyConId(3), vec![])), // Text
        ("age", Type::Con(TyConId(0), vec![])), // Int
    ]);
    let (_arena, user_id) = make_arena_with_record("User", copy(&schema));
    let mut ctx = InferCtx::new();
    ctx.env.push_frame();

    let fields = vec![
        fi("name", Some(text_lit("x"))),
        fi("age", Some(int_lit("30"))),
    ];

    let ty = construct(&mut ctx, &schema, user_id, "User", &fields);
    assert!(
        ctx.errors.is_empty(),
        "expected no errors; got {:?}",
        ctx.errors
    );
    assert!(
        matches!(ty, Type::Con(id, _) if id == user_id),
        "expected Type::Con(User, ..), got {ty:?}"
    );
    ctx.env.pop_frame();
}

#[test]
fn t2_qualified_ctor_happy_path_response() {
    let schema = make_schema(&[
        ("status", Type::Con(TyConId(0), vec![])), // Int
    ]);
    let (_arena, resp_id) = make_arena_with_record("Response", copy(&schema));
    let mut ctx = InferCtx::new();
    ctx.env.push_frame();

    let fields = vec![fi("status", Some(int_lit("200")))];
    let ty =
        construct(&mut ctx, &schema, resp_id, "Response", &fields);

    assert!(
        ctx.errors.is_empty(),
        "expected no errors; got {:?}",
        ctx.errors
    );
    assert!(
        matches!(ty, Type::Con(id, _) if id == resp_id),
        "expected Type::Con(Response, ..), got {ty:?}"
    );
    ctx.env.pop_frame();
}

#[test]
fn t3_missing_field_emits_t004() {
    let schema = make_schema(&[
        ("name", Type::Con(TyConId(3), vec![])),
        ("age", Type::Con(TyConId(0), vec![])),
    ]);
    let (_arena, user_id) = make_arena_with_record("User", copy(&schema));
    let mut ctx = InferCtx::new();
    ctx.env.push_frame();

    // Only provide `name`, omit `age`.
    let fields = vec![fi("name", Some(text_lit("Alice")))];
    let _ = construct(&mut ctx, &schema, user_id, "User", &fields);

    let t004 = ctx.errors.iter().any(|e| e.code() == "T004");
    assert!(t004, "expected T004 MissingField; got {:?}", ctx.errors);
    ctx.env.pop_frame();
}

#[test]
fn t4_unknown_field_emits_t005_with_suggestion() {
    let schema = make_schema(&[("name", Type::Con(TyConId(3), vec![]))]);
    let (_arena, user_id) = make_arena_with_record("User", copy(&schema));
    let mut ctx = InferCtx::new();
    ctx.env.push_frame();

    // Provide `nme` (typo of `name`) plus the required `name`.
    let fields = vec![
        fi("name", Some(text_lit("Alice"))),
        fi("nme", Some(text_lit("oops"))),
    ];
    let _ = construct(&mut ctx, &schema, user_id, "User", &fields);

    let t005 = ctx.errors.iter().any(|e| e.code() == "T005");
    assert!(t005, "expected T005 UnknownField; got {:?}", ctx.errors);

    // Check did-you-mean includes "name".
    let has_suggestion = ctx.errors.iter().any(|e| {
        if let TypeError::UnknownField { suggestions, .. } = e {
            suggestions.iter().any(|s| s == "name")
        } else {
            false
        }
    });
    assert!(
        has_suggestion,
        "expected 'name' in suggestions; errors: {:?}",
        ctx.errors
    );
    ctx.env.pop_frame();
}

#[test]
fn t5_field_type_mismatch_emits_t001() {
    // `age` is declared as Int but supplied as Text.
    let schema = make_schema(&[("age", Type::Con(TyConId(0), vec![]))]);
    let (_arena, user_id) = make_arena_with_record("User", copy(&schema));
    let mut ctx = InferCtx::new();
    ctx.env.push_frame();

    // Supply `age = "not-a-number"` (Text, not Int).
    let fields = vec![fi("age", Some(text_lit("bad")))];
    let _ = construct(&mut ctx, &schema, user_id, "User", &fields);

    let t001 = ctx.errors.iter().any(|e| e.code() == "T001");
    assert!(t001, "expected T001 TypeMismatch; got {:?}", ctx.errors);
    ctx.env.pop_frame();
}

#[test]
fn t6_field_access_happy_path() {
    let schema = make_schema(&[("name", Type::Con(TyConId(3), vec![]))]);
    let (arena, user_id) = make_arena_with_record("User", schema);
    let mut ctx = InferCtx::new();

    let base_ty = Type::Con(user_id, vec![]);
    let field = id("name");
    let ty = infer_field_access(&mut ctx, &builtins(), &base_ty, &field, ds(), &arena);

    assert!(
        ctx.errors.is_empty(),
        "expected no errors; got {:?}",
        ctx.errors
    );
    // Should be Text (TyConId(3) in the schema).
    assert!(
        matches!(ty, Type::Con(TyConId(3), _)),
        "expected Text (TyConId 3), got {ty:?}"
    );
}

#[test]
fn t7_field_access_unknown_field_emits_t005() {
    let schema = make_schema(&[("name", Type::Con(TyConId(3), vec![]))]);
    let (arena, user_id) = make_arena_with_record("User", schema);
    let mut ctx = InferCtx::new();

    let base_ty = Type::Con(user_id, vec![]);
    let field = id("nme"); // typo
    let _ = infer_field_access(&mut ctx, &builtins(), &base_ty, &field, ds(), &arena);

    let t005 = ctx.errors.iter().any(|e| e.code() == "T005");
    assert!(t005, "expected T005 UnknownField; got {:?}", ctx.errors);
}

#[test]
fn t8_field_access_on_non_record_emits_t006() {
    let b = builtins();
    let arena = builtin_decls();
    let mut ctx = InferCtx::new();

    // Use Int as the base type — definitely not a record.
    let base_ty = Type::Con(b.int, vec![]);
    let field = id("name");
    let _ = infer_field_access(&mut ctx, &builtins(), &base_ty, &field, ds(), &arena);

    let t006 = ctx.errors.iter().any(|e| e.code() == "T006");
    assert!(t006, "expected T006 WithOnNonRecord; got {:?}", ctx.errors);
}

#[test]
fn t9_with_update_happy_path() {
    let schema = make_schema(&[
        ("name", Type::Con(TyConId(3), vec![])),
        ("age", Type::Con(TyConId(0), vec![])),
    ]);
    let (arena, user_id) = make_arena_with_record("User", schema);
    let mut ctx = InferCtx::new();
    ctx.env.push_frame();

    let base_ty = Type::Con(user_id, vec![]);
    let fields = vec![fi("age", Some(int_lit("31")))];
    let ty = update(&mut ctx, &base_ty, &fields, &arena);

    assert!(
        ctx.errors.is_empty(),
        "expected no errors; got {:?}",
        ctx.errors
    );
    assert!(
        matches!(ty, Type::Con(id, _) if id == user_id),
        "expected same User type, got {ty:?}"
    );
    ctx.env.pop_frame();
}

#[test]
fn t10_with_update_on_non_record_emits_t006() {
    let b = builtins();
    let arena = builtin_decls();
    let mut ctx = InferCtx::new();
    ctx.env.push_frame();

    // Use Int as base — not a record.
    let base_ty = Type::Con(b.int, vec![]);
    let fields = vec![fi("age", Some(int_lit("1")))];
    let _ = update(&mut ctx, &base_ty, &fields, &arena);

    let t006 = ctx.errors.iter().any(|e| e.code() == "T006");
    assert!(t006, "expected T006 WithOnNonRecord; got {:?}", ctx.errors);
    ctx.env.pop_frame();
}

#[test]
fn t11_with_update_unknown_field_emits_t005() {
    let schema = make_schema(&[("age", Type::Con(TyConId(0), vec![]))]);
    let (arena, user_id) = make_arena_with_record("User", schema);
    let mut ctx = InferCtx::new();
    ctx.env.push_frame();

    let base_ty = Type::Con(user_id, vec![]);
    // `nme` is not a field of User.
    let fields = vec![fi("nme", Some(text_lit("bad")))];
    let _ = update(&mut ctx, &base_ty, &fields, &arena);

    let t005 = ctx.errors.iter().any(|e| e.code() == "T005");
    assert!(t005, "expected T005 UnknownField; got {:?}", ctx.errors);
    ctx.env.pop_frame();
}

#[test]
fn t12_record_with_type_params_instantiated() {
    // type Box a = { value: a }
    // Box { value = 42 } → Box Int (fresh var resolved to Int)
    let a = TyVid(0);
    let schema = RecordSchema {
        params: vec![a],
        fields: vec![RecordField { name: "value".to_string(), ty: Type::Var(a) }],
    };
    let (_arena, box_id) = make_arena_with_record("Box", copy(&schema));
    let b = builtins();
    let mut ctx = InferCtx::new();
    ctx.env.push_frame();

    let fields = vec![fi("value", Some(int_lit("42")))];
    let ty = construct(&mut ctx, &schema, box_id, "Box", &fields);

    assert!(
        ctx.errors.is_empty(),
        "expected no errors; got {:?}",
        ctx.errors
    );
    // Should be Type::Con(box_id, [Type::Var(fresh_v)])
    // and after deep_resolve the fresh var should be Int.
    if let Type::Con(id, args) = &ty {
        assert_eq!(*id, box_id);
        assert_eq!(args.len(), 1);
        let resolved = ctx.deep_resolve(&args[0]);
        assert!(
            matches!(resolved, Type::Con(iid, _) if iid == b.int),
            "expected fresh var to resolve to Int, got {resolved:?}"
        );
    } else {
        panic!("expected Type::Con(Box, [..]), got {ty:?}");
    }
    ctx.env.pop_frame();
}

/// `User { name, .. }` — shorthand binds `name`; `..` allows omitting `age`.
#[test]
fn record_pattern_rest_binds_named_field() {
    let schema = make_schema(&[
        ("name", Type::Con(TyConId(3), vec![])),
        ("age", Type::Con(TyConId(0), vec![])),
    ]);
    let (_arena, user_id) = make_arena_with_record("User", copy(&schema));
    let mut ctx = InferCtx::new();
    ctx.env.push_frame();
    let fields = vec![fp_short("name")];
    let expected = Type::Var(ctx.fresh_tyvid());
    match_fields(&mut ctx, &schema, user_id, &fields, true, &expected);
    assert!(
        ctx.errors.is_empty(),
        "expected no errors; got {:?}",
        ctx.errors
    );
    assert!(
        ctx.env.lookup("name").is_some(),
        "shorthand `name` must be bound"
    );
    ctx.env.pop_frame();
}

/// `User { name, age }` — all fields named, no `..` → exhaustive, no errors.
#[test]
fn record_pattern_all_fields_no_rest_ok() {
    let schema = make_schema(&[
        ("name", Type::Con(TyConId(3), vec![])),
        ("age", Type::Con(TyConId(0), vec![])),
    ]);
    let (_arena, user_id) = make_arena_with_record("User", copy(&schema));
    let mut ctx = InferCtx::new();
    ctx.env.push_frame();
    let fields = vec![fp_short("name"), fp_short("age")];
    let expected = Type::Var(ctx.fresh_tyvid());
    match_fields(&mut ctx, &schema, user_id, &fields, false, &expected);
    assert!(
        ctx.errors.is_empty(),
        "expected no errors; got {:?}",
        ctx.errors
    );
    ctx.env.pop_frame();
}

/// `User { nope, .. }` — unknown field name reported.
#[test]
fn record_pattern_unknown_field_reported() {
    let schema = make_schema(&[("name", Type::Con(TyConId(3), vec![]))]);
    let (_arena, user_id) = make_arena_with_record("User", copy(&schema));
    let mut ctx = InferCtx::new();
    ctx.env.push_frame();
    let fields = vec![fp_short("nope")];
    let expected = Type::Var(ctx.fresh_tyvid());
    match_fields(&mut ctx, &schema, user_id, &fields, true, &expected);
    assert!(
        ctx.errors
            .iter()
            .any(|e| matches!(e, TypeError::UnknownField { .. })),
        "expected UnknownField; got {:?}",
        ctx.errors
    );
    ctx.env.pop_frame();
}

/// `User { name }` without `..` on a 2-field record → missing `age`.
#[test]
fn record_pattern_missing_field_without_rest() {
    let schema = make_schema(&[
        ("name", Type::Con(TyConId(3), vec![])),
        ("age", Type::Con(TyConId(0), vec![])),
    ]);
    let (_arena, user_id) = make_arena_with_record("User", copy(&schema));
    let mut ctx = InferCtx::new();
    ctx.env.push_frame();
    let fields = vec![fp_short("name")];
    let expected = Type::Var(ctx.fresh_tyvid());
    match_fields(&mut ctx, &schema, user_id, &fields, false, &expected);
    assert!(
        ctx.errors
            .iter()
            .any(|e| matches!(e, TypeError::MissingField { .. })),
        "expected MissingField for `age`; got {:?}",
        ctx.errors
    );
    ctx.env.pop_frame();
}

#[test]
fn structural_field_access_returns_field_type() {
    let mut ctx = InferCtx::new();
    let b = builtins();
    let rec = Type::record(
        vec![
            ("name".to_string(), Type::Con(b.text, vec![])),
            ("age".to_string(), Type::Con(b.int, vec![])),
        ],
        RowTail::Closed,
    );
    let ty = infer_field_access(&mut ctx, &b, &rec, &id("age"), ds(), &vec![]);
    assert!(matches!(ty, Type::Con(tc, _) if tc == b.int), "got {ty:?}");
    assert!(ctx.errors.is_empty(), "{:?}", ctx.errors);
}

#[test]
fn structural_field_access_unknown_field_errors() {
    let mut ctx = InferCtx::new();
    let b = builtins();
    let rec = Type::record(
        vec![("name".to_string(), Type::Con(b.text, vec![]))],
        RowTail::Closed,
    );
    let ty = infer_field_access(&mut ctx, &b, &rec, &id("missing"), ds(), &vec![]);
    assert!(matches!(ty, Type::Error));
    assert_eq!(ctx.errors.len(), 1);
    assert_eq!(ctx.errors[0].code(), "T005");
}

#[test]
fn structural_with_present_field_unifies_and_returns_base() {
    let mut ctx = InferCtx::new();
    let b = builtins();
    let rec = Type::record(
        vec![("count".to_string(), Type::Con(b.int, vec![]))],
        RowTail::Closed,
    );
    let updates = vec![fi("count", Some(int_lit("5")))];
    let ty = update(&mut ctx, &rec, &updates, &vec![]);
    assert!(matches!(ty, Type::Record { .. }), "got {ty:?}");
    assert!(ctx.errors.is_empty(), "{:?}", ctx.errors);
}

#[test]
fn structural_with_unknown_field_errors() {
    let mut ctx = InferCtx::new();
    let b = builtins();
    let rec = Type::record(
        vec![("count".to_string(), Type::Con(b.int, vec![]))],
        RowTail::Closed,
    );
    let updates = vec![fi("nope", Some(int_lit("1")))];
    let _ = update(&mut ctx, &rec, &updates, &vec![]);
    assert!(
        ctx.errors.iter().any(|e| e.code() == "T005"),
        "{:?}",
        ctx.errors
    );
}

#[test]
fn a_shorthand_field_takes_the_variable_of_its_name() {
    let b = builtins();
    let schema = make_schema(&[("age", Type::Con(b.int, vec![]))]);
    let (_arena, user_id) = make_arena_with_record("User", copy(&schema));
    let mut ctx = InferCtx::new();
    ctx.env.push_frame();
    ctx.env.bind("age".to_string(), monoscheme(Type::Con(b.text, vec![])));
    let _ = construct(&mut ctx, &schema, user_id, "User", &vec![fi("age", None)]);
    assert_eq!(ctx.errors.len(), 1);
    assert_eq!(ctx.errors[0].code(), "T001");
}

#[test]
fn an_opaque_record_is_closed_to_other_modules() {
    let b = builtins();
    let schema = make_schema(&[("age", Type::Con(b.int, vec![]))]);
    let (mut arena, user_id) = make_arena_with_record("User", schema);
    let at = user_id.0 as usize;
    arena[at].opaque = true;
    arena[at].def_module_raw = Some(3);
    let mut ctx = InferCtx::new();
    ctx.current_module_raw = Some(4);
    let base = Type::Con(user_id, vec![]);
    let ty = infer_field_access(&mut ctx, &b, &base, &id("age"), ds(), &arena);
    assert!(matches!(ty, Type::Error));
    assert_eq!(ctx.errors.len(), 1);
    let mut home = InferCtx::new();
    home.current_module_raw = Some(3);
    let ty = infer_field_access(&mut home, &b, &base, &id("age"), ds(), &arena);
    assert!(matches!(ty, Type::Con(i, _) if i == b.int));
    assert!(home.errors.is_empty());
}

#[test]
fn a_record_pattern_gives_the_expected_type() {
    let b = builtins();
    let schema = make_schema(&[("age", Type::Con(b.int, vec![]))]);
    let (_arena, user_id) = make_arena_with_record("User", copy(&schema));
    let mut ctx = InferCtx::new();
    ctx.env.push_frame();
    let expected = Type::Var(ctx.fresh_tyvid());
    match_fields(&mut ctx, &schema, user_id, &vec![fp_short("age")], false, &expected);
    assert!(matches!(ctx.deep_resolve(&expected), Type::Con(i, _) if i == user_id));
    let bound = ctx.env.lookup("age").cloned();
    assert!(matches!(bound, Some(s) if matches!(s.ty, Type::Con(i, _) if i == b.int)));
}

#[test]
fn record_literals_hold_their_fields_by_label() {
    let b = builtins();
    let rec = Type::record(
        vec![
            ("b".to_string(), Type::Con(b.int, vec![])),
            ("a".to_string(), Type::Con(b.text, vec![])),
        ],
        RowTail::Closed,
    );
    match rec {
        Type::Record { fields, tail } => {
            assert_eq!(fields[0].0, "a");
            assert_eq!(fields[1].0, "b");
            assert!(matches!(&fields[1].1, Type::Con(i, _) if *i == b.int));
            assert_eq!(tail, RowTail::Closed);
        }
        other => panic!("{other:?}"),
    }
}

#[test]
fn suggestions_are_narrowed_by_what_is_supplied() {
    let b = builtins();
    let schema =
        make_schema(&[("name", Type::Con(b.text, vec![])), ("age", Type::Con(b.int, vec![]))]);
    let (arena, user_id) = make_arena_with_record("User", schema);
    let mut ctx = InferCtx::new();
    let base = Type::Con(user_id, vec![]);
    let _ = infer_field_access(&mut ctx, &b, &base, &id("nme"), ds(), &arena);
    assert!(matches!(
        &ctx.errors[0],
        TypeError::UnknownField { suggestions, .. } if suggestions.len() == 2
    ));
    let errors = narrow_suggestions(ctx.errors, &|wrong: &String, names: &Vec<String>| {
        assert_eq!(wrong, "nme");
        names.iter().filter(|n| n.starts_with('n')).cloned().collect()
    });
    assert_eq!(errors.len(), 1);
    match &errors[0] {
        TypeError::UnknownField { suggestions, .. } => {
            assert_eq!(suggestions, &vec!["name".to_string()])
        }
        other => panic!("{other:?}"),
    }
}

#[test]
fn a_span_is_attached_to_a_mismatch() {
    let b = builtins();
    let mut ctx = InferCtx::new();
    let e = unify(&mut ctx.vars, &Type::Con(b.int, vec![]), &Type::Con(b.text, vec![]));
    match e {
        Err(e) => assert_eq!(attach_span_pub(e, Span::new(7, 9)).span(), Span::new(7, 9)),
        Ok(()) => panic!("int is not text"),
    }
}

#[test]
fn a_span_is_attached_to_nothing_else() {
    let e = TypeError::InsertShapeFullEntity {
        entity: "User".to_string(),
        companion: "NewUser".to_string(),
        omitted: vec!["id".to_string()],
        span: Span::new(1, 2),
    };
    assert_eq!(attach_span_pub(e, Span::new(5, 9)).span(), Span::new(1, 2));
}

#[test]
fn a_record_with_a_field_missing_has_no_type() {
    let schema = make_schema(&[
        ("name", Type::Con(TyConId(3), vec![])),
        ("age", Type::Con(TyConId(0), vec![])),
    ]);
    let (_arena, user_id) = make_arena_with_record("User", copy(&schema));
    let mut ctx = InferCtx::new();
    ctx.env.push_frame();
    let fields = vec![fi("name", Some(text_lit("Alice")))];
    let t = construct(&mut ctx, &schema, user_id, "User", &fields);
    assert!(matches!(t, Type::Error), "{t:?}");
    assert_eq!(ctx.errors.len(), 1);
    assert!(matches!(
        &ctx.errors[0],
        TypeError::MissingField { field, span, .. } if field == "age" && *span == Span::point(0)
    ));
}

#[test]
fn a_record_with_a_wrong_or_an_unknown_field_has_no_type() {
    let schema = make_schema(&[("age", Type::Con(TyConId(0), vec![]))]);
    let (_arena, user_id) = make_arena_with_record("User", copy(&schema));
    let mut ctx = InferCtx::new();
    let wrong = vec![fi("age", Some(text_lit("old")))];
    let t = construct(&mut ctx, &schema, user_id, "User", &wrong);
    assert!(matches!(t, Type::Error), "{t:?}");
    assert_eq!(ctx.errors[0].code(), "T001");
    let mut ctx = InferCtx::new();
    let extra = vec![fi("age", Some(int_lit("1"))), fi("agee", Some(int_lit("1")))];
    let t = construct(&mut ctx, &schema, user_id, "User", &extra);
    assert!(matches!(t, Type::Error), "{t:?}");
    assert_eq!(ctx.errors[0].code(), "T005");
}

#[test]
fn an_update_of_an_unknown_field_has_no_type() {
    let schema = make_schema(&[("age", Type::Con(TyConId(0), vec![]))]);
    let (arena, user_id) = make_arena_with_record("User", schema);
    let mut ctx = InferCtx::new();
    let base = Type::Con(user_id, vec![]);
    let t = update(&mut ctx, &base, &vec![fi("nme", Some(text_lit("bad")))], &arena);
    assert!(matches!(t, Type::Error), "{t:?}");
    assert_eq!(ctx.errors.len(), 1);
    assert_eq!(ctx.errors[0].code(), "T005");
    let mut ctx = InferCtx::new();
    let t = update(&mut ctx, &base, &vec![fi("age", Some(text_lit("bad")))], &arena);
    assert!(matches!(t, Type::Error), "{t:?}");
    assert_eq!(ctx.errors[0].code(), "T001");
}

#[test]
fn an_update_of_a_row_with_a_wrong_field_has_no_type() {
    let mut ctx = InferCtx::new();
    let b = builtins();
    let rec = Type::record(
        vec![("count".to_string(), Type::Con(b.int, vec![]))],
        RowTail::Closed,
    );
    let t = update(&mut ctx, &rec, &vec![fi("nope", Some(int_lit("1")))], &vec![]);
    assert!(matches!(t, Type::Error), "{t:?}");
    assert_eq!(ctx.errors.len(), 1);
}

#[test]
fn a_parameter_is_replaced_inside_a_record_type() {
    let rec = Type::record(vec![("x".to_string(), Type::Var(TyVid(0)))], RowTail::Closed);
    let t = subst_type(&rec, &vec![TyVid(0)], &vec![Type::Con(TyConId(0), vec![])]);
    match t {
        Type::Record { fields, .. } => {
            assert_eq!(fields[0].0, "x");
            assert!(matches!(fields[0].1, Type::Con(TyConId(0), _)));
        }
        other => panic!("{other:?}"),
    }
}

#[test]
fn an_inference_that_adds_nothing_will_do() {
    let schema = make_schema(&[("age", Type::Con(TyConId(0), vec![]))]);
    let (_arena, user_id) = make_arena_with_record("User", copy(&schema));
    let (ctx, t) = infer_record_construction(
        InferCtx::new(),
        &schema,
        user_id,
        "User",
        &vec![fi("age", Some(int_lit("1")))],
        ds(),
        |c: InferCtx, _: &Expr| (c, Type::Error),
    );
    assert!(ctx.errors.is_empty());
    assert!(matches!(t, Type::Con(i, _) if i == user_id));
}

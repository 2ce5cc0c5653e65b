use ridge_typecheck::ast::{
    BinOp, Expr, FieldInit, Ident, LambdaParam, Literal, Pattern, RecordCtor,
};
use ridge_typecheck::ctx::InferCtx;
use ridge_typecheck::error::TypeError;
use ridge_typecheck::group::{check_group_quote, quote_group_slot};
use ridge_typecheck::instantiate::monoscheme;
use ridge_typecheck::quote::{
    check_quote, is_quote_param, quote_arity, quote_entity_at, quote_result, quote_slot_nullable,
};
use ridge_typecheck::types::{
    BuiltinTyCons, CapRow, CapabilitySet, RecordField, RecordSchema, Span, TyConDecl, TyConId,
    TyConKind, Type,
};

const USER: TyConId = TyConId(27);
const SUMMARY: TyConId = TyConId(28);
const GROUPED: TyConId = TyConId(29);
const QUERY: TyConId = TyConId(30);
const STATS: TyConId = TyConId(31);

fn builtins() -> BuiltinTyCons {
    BuiltinTyCons {
        int: TyConId(0),
        float: TyConId(1),
        bool: TyConId(2),
        text: TyConId(3),
        unit: TyConId(4),
        list: TyConId(5),
        map: TyConId(6),
        set: TyConId(7),
        option: TyConId(8),
        result: TyConId(9),
        handle: TyConId(10),
        timestamp: TyConId(11),
        error: TyConId(12),
        duration: TyConId(13),
        proc_output: TyConId(14),
        decimal: TyConId(16),
        uuid: TyConId(17),
        bytes: TyConId(18),
        date: TyConId(19),
        time: TyConId(20),
        json_value: TyConId(21),
        sql_value: TyConId(22),
        quote: TyConId(23),
        ret: TyConId(24),
        rows: TyConId(25),
        q_expr: TyConId(26),
    }
}

fn ds() -> Span {
    Span::point(0)
}

fn con(id: TyConId) -> Type {
    Type::Con(id, vec![])
}

fn option(t: Type) -> Type {
    Type::Con(builtins().option, vec![t])
}

fn decl(id: TyConId, name: &str, kind: TyConKind) -> TyConDecl {
    TyConDecl {
        id,
        name: name.to_string(),
        arity: 0,
        kind,
        def_module_raw: Some(1),
        opaque: false,
        is_anon: false,
    }
}

fn record(fields: &[(&str, Type)]) -> TyConKind {
    TyConKind::Record(RecordSchema {
        params: vec![],
        fields: fields
            .iter()
            .map(|(n, t)| RecordField { name: (*n).to_string(), ty: t.clone() })
            .collect(),
    })
}

/// A context with a few entities.
fn context() -> InferCtx {
    let b = builtins();
    let mut ctx = InferCtx::new();
    for i in 0..27 {
        let name = if i == b.quote.0 { "Quote" } else { "Builtin" };
        ctx.tycon_decls.push(decl(TyConId(i), name, TyConKind::Primitive));
    }
    ctx.tycon_decls.push(decl(
        USER,
        "User",
        record(&[
            ("id", con(b.int)),
            ("name", con(b.text)),
            ("age", con(b.int)),
            ("active", con(b.bool)),
            ("nick", option(con(b.text))),
        ]),
    ));
    ctx.tycon_decls.push(decl(
        SUMMARY,
        "Summary",
        record(&[("name", con(b.text)), ("old", con(b.bool))]),
    ));
    ctx.tycon_decls.push(decl(GROUPED, "Grouped", TyConKind::Primitive));
    ctx.tycon_decls.push(decl(QUERY, "Query", TyConKind::Primitive));
    ctx.tycon_decls.push(decl(
        STATS,
        "Stats",
        record(&[("key", con(b.text)), ("total", con(b.int)), ("mean", con(b.float))]),
    ));
    ctx.user_tycon_names.insert("Summary".to_string(), SUMMARY);
    ctx.user_tycon_names.insert("Stats".to_string(), STATS);
    ctx.env.push_frame();
    ctx
}

fn id(t: &str) -> Ident {
    Ident { text: t.to_string(), span: ds() }
}

fn var(t: &str) -> Expr {
    Expr::Ident(id(t))
}

fn num(n: &str) -> Expr {
    Expr::Literal(Literal::IntDec { raw: n.to_string(), span: ds() })
}

fn text(s: &str) -> Expr {
    Expr::Literal(Literal::Text { raw: s.to_string(), span: ds() })
}

fn field(base: &str, name: &str) -> Expr {
    Expr::FieldAccess { base: Box::new(var(base)), field: id(name), span: ds() }
}

fn bin(op: BinOp, l: Expr, r: Expr) -> Expr {
    Expr::Binary { op, lhs: Box::new(l), rhs: Box::new(r), span: ds() }
}

fn lambda(params: &[&str], body: Expr) -> Expr {
    Expr::Lambda {
        params: params
            .iter()
            .map(|p| LambdaParam::Pattern(Pattern::Var { name: id(p), span: ds() }))
            .collect(),
        body: Box::new(body),
        span: Span::new(10, 20),
    }
}

fn call(f: &str, args: Vec<Expr>) -> Expr {
    Expr::Call { callee: Box::new(var(f)), args, span: ds() }
}

fn make(ctor: &str, fields: Vec<(&str, Expr)>) -> Expr {
    Expr::Record {
        constructor: RecordCtor::Bare(id(ctor)),
        fields: fields
            .into_iter()
            .map(|(n, e)| FieldInit { name: id(n), value: Some(e), span: ds() })
            .collect(),
        span: ds(),
    }
}

/// Checks a condition on the rows of `User`.
fn condition(ctx: &mut InferCtx, body: Expr) -> bool {
    let b = builtins();
    check_quote(ctx, &b, &lambda(&["u"], body), &vec![(USER, false)], Some(&con(b.bool)))
}

fn rejects(body: Expr, code: &str) {
    let mut ctx = context();
    assert!(!condition(&mut ctx, body));
    assert_eq!(ctx.errors.len(), 1, "{:?}", ctx.errors);
    assert_eq!(ctx.errors[0].code(), code);
    assert!(ctx.quoted_lambdas.is_empty());
}

fn accepts(body: Expr) {
    let mut ctx = context();
    assert!(condition(&mut ctx, body), "{:?}", ctx.errors);
    assert!(ctx.errors.is_empty());
    let info = ctx.quoted_lambdas.get(&(10, 20));
    assert!(matches!(info, Some(i) if i.param_name == "u" && i.entity == USER && !i.group));
}

#[test]
fn comparisons_and_logic_are_conditions() {
    accepts(bin(BinOp::Eq, field("u", "id"), num("1")));
    accepts(field("u", "active"));
    accepts(bin(
        BinOp::And,
        bin(BinOp::Gt, field("u", "age"), num("17")),
        bin(BinOp::Ne, field("u", "name"), text("root")),
    ));
    accepts(Expr::Paren {
        inner: Box::new(bin(BinOp::Le, num("3"), field("u", "age"))),
        span: ds(),
    });
}

#[test]
fn an_unknown_column_names_the_columns() {
    let mut ctx = context();
    assert!(!condition(&mut ctx, bin(BinOp::Eq, field("u", "agee"), num("1"))));
    match &ctx.errors[0] {
        TypeError::QuoteUnknownColumn { entity, column, suggestions, .. } => {
            assert_eq!(entity, "User");
            assert_eq!(column, "agee");
            assert!(suggestions.contains(&"age".to_string()));
        }
        other => panic!("{other:?}"),
    }
    assert_eq!(ctx.errors[0].code(), "T039");
}

#[test]
fn two_sides_of_a_comparison_agree() {
    rejects(bin(BinOp::Eq, field("u", "name"), num("1")), "T041");
}

#[test]
fn a_column_that_may_be_missing_is_an_option() {
    rejects(bin(BinOp::Eq, field("u", "nick"), text("x")), "T041");
    let b = builtins();
    let mut ctx = context();
    let body = bin(BinOp::Eq, field("u", "name"), text("x"));
    let ok = check_quote(
        &mut ctx,
        &b,
        &lambda(&["u"], body),
        &vec![(USER, true)],
        Some(&con(b.bool)),
    );
    assert!(!ok);
    assert_eq!(ctx.errors[0].code(), "T041");
}

#[test]
fn what_a_query_cannot_express_is_refused() {
    rejects(Expr::Try { block: ridge_typecheck::ast::Block { stmts: vec![], span: ds() }, span: ds() }, "T040");
    rejects(field("v", "id"), "T040");
    rejects(bin(BinOp::Div, field("u", "age"), num("0")), "T040");
    rejects(bin(BinOp::Div, field("u", "age"), num("0x0")), "T040");
    rejects(bin(BinOp::And, field("u", "age"), field("u", "active")), "T040");
    rejects(field("u", "age"), "T040");
}

#[test]
fn a_captured_value_is_typed_by_its_scheme() {
    let b = builtins();
    let mut ctx = context();
    ctx.env.bind("limit".to_string(), monoscheme(con(b.int)));
    assert!(condition(&mut ctx, bin(BinOp::Lt, field("u", "age"), var("limit"))));
    let mut ctx = context();
    ctx.env.bind("limit".to_string(), monoscheme(con(b.text)));
    assert!(!condition(&mut ctx, bin(BinOp::Lt, field("u", "age"), var("limit"))));
    assert_eq!(ctx.errors[0].code(), "T041");
}

#[test]
fn a_quote_takes_a_parameter_for_each_entity() {
    let b = builtins();
    let mut ctx = context();
    let two = lambda(&["u", "v"], bin(BinOp::Eq, field("u", "id"), field("v", "id")));
    assert!(!check_quote(&mut ctx, &b, &two, &vec![(USER, false)], Some(&con(b.bool))));
    assert_eq!(ctx.errors[0].code(), "T040");
    let mut ctx = context();
    let both = vec![(USER, false), (USER, false)];
    assert!(check_quote(&mut ctx, &b, &two, &both, Some(&con(b.bool))), "{:?}", ctx.errors);
}

#[test]
fn a_projection_fills_its_record() {
    let b = builtins();
    let body = || {
        make(
            "Summary",
            vec![
                ("name", field("u", "name")),
                ("old", field("u", "active")),
            ],
        )
    };
    let mut ctx = context();
    let ret = Type::Var(ctx.fresh_tyvid());
    let ok = check_quote(&mut ctx, &b, &lambda(&["u"], body()), &vec![(USER, false)], Some(&ret));
    assert!(ok, "{:?}", ctx.errors);
    assert!(matches!(ctx.deep_resolve(&ret), Type::Con(i, _) if i == SUMMARY));
    let missing = make("Summary", vec![("name", field("u", "name"))]);
    let mut ctx = context();
    let ret = con(SUMMARY);
    let ok = check_quote(&mut ctx, &b, &lambda(&["u"], missing), &vec![(USER, false)], Some(&ret));
    assert!(!ok);
    assert_eq!(ctx.errors.len(), 1);
}

#[test]
fn the_parts_of_a_quote_type() {
    let b = builtins();
    let mut ctx = context();
    let f = Type::Fn {
        params: vec![con(USER), option(con(SUMMARY))],
        ret: Box::new(con(b.bool)),
        caps: CapRow::Concrete(CapabilitySet::pure()),
    };
    let v = ctx.fresh_tyvid();
    assert!(ctx.vars.bind(v, &f));
    let q = Type::Con(b.quote, vec![Type::Var(v)]);
    assert!(is_quote_param(&ctx, &q));
    assert!(!is_quote_param(&ctx, &con(b.int)));
    assert_eq!(quote_arity(&ctx, &q), Some(2));
    assert!(matches!(quote_result(&ctx, &q), Some(Type::Con(i, _)) if i == b.bool));
    assert_eq!(quote_entity_at(&ctx, &b, &q, 0), Some(USER));
    assert_eq!(quote_entity_at(&ctx, &b, &q, 1), Some(SUMMARY));
    assert_eq!(quote_entity_at(&ctx, &b, &q, 2), None);
    assert!(!quote_slot_nullable(&ctx, &b, &q, 0));
    assert!(quote_slot_nullable(&ctx, &b, &q, 1));
}

fn aggregate(g: &str, func: &str, column: &str) -> Expr {
    Expr::Call {
        callee: Box::new(field(g, func)),
        args: vec![lambda(&["u"], field("u", column))],
        span: ds(),
    }
}

fn grouped(ctx: &mut InferCtx, body: Expr, ret: &Type) -> bool {
    let b = builtins();
    check_group_quote(ctx, &b, &lambda(&["g"], body), &con(USER), &con(b.text), Some(ret))
}

#[test]
fn a_group_is_summed_and_keyed() {
    let b = builtins();
    let mut ctx = context();
    let body = make(
        "Stats",
        vec![
            ("key", field("g", "key")),
            ("total", aggregate("g", "sum", "age")),
            ("mean", aggregate("g", "avg", "age")),
        ],
    );
    let ret = con(STATS);
    assert!(grouped(&mut ctx, body, &ret), "{:?}", ctx.errors);
    let info = ctx.quoted_lambdas.get(&(10, 20));
    assert!(matches!(info, Some(i) if i.group && i.entity == USER && i.param_name == "g"));
    let mut ctx = context();
    let having = bin(BinOp::Gt, aggregate("g", "max", "age"), num("3"));
    assert!(grouped(&mut ctx, having, &con(b.bool)), "{:?}", ctx.errors);
}

#[test]
fn a_group_has_its_own_rules() {
    let b = builtins();
    for body in [
        field("g", "age"),
        aggregate("g", "median", "age"),
        aggregate("h", "sum", "age"),
        aggregate("g", "sum", "name"),
        call("sum", vec![]),
    ] {
        let mut ctx = context();
        assert!(!grouped(&mut ctx, bin(BinOp::Gt, body, num("3")), &con(b.bool)));
        assert_eq!(ctx.errors.len(), 1, "{:?}", ctx.errors);
        assert!(ctx.quoted_lambdas.is_empty());
    }
}

#[test]
fn the_rows_and_the_key_of_a_grouped_quote() {
    let b = builtins();
    let mut ctx = context();
    let key = Type::Fn {
        params: vec![con(USER)],
        ret: Box::new(con(b.text)),
        caps: CapRow::Concrete(CapabilitySet::pure()),
    };
    let slot = Type::Con(GROUPED, vec![Type::Con(QUERY, vec![con(USER)]), key]);
    let f = Type::Fn {
        params: vec![slot],
        ret: Box::new(con(b.bool)),
        caps: CapRow::Concrete(CapabilitySet::pure()),
    };
    let q = Type::Con(b.quote, vec![f]);
    match quote_group_slot(&mut ctx, &q) {
        Some((e, k)) => {
            assert!(matches!(e, Type::Con(i, _) if i == USER));
            assert!(matches!(k, Type::Con(i, _) if i == b.text));
        }
        None => panic!("a slot"),
    }
    assert!(quote_group_slot(&mut ctx, &con(b.int)).is_none());
}

#[test]
fn a_quote_that_is_no_lambda_is_left_alone() {
    let b = builtins();
    let mut ctx = context();
    assert!(!check_quote(&mut ctx, &b, &var("f"), &vec![(USER, false)], None));
    assert!(ctx.errors.is_empty());
}

#[test]
fn a_row_type_without_columns_is_reported() {
    let b = builtins();
    let mut ctx = context();
    let inner = Expr::Lambda {
        params: vec![LambdaParam::Annotated {
            pat: Pattern::Var { name: id("u"), span: ds() },
            ty: con(b.int),
        }],
        body: Box::new(field("u", "x")),
        span: ds(),
    };
    let sum = Expr::Call {
        callee: Box::new(field("g", "sum")),
        args: vec![inner],
        span: ds(),
    };
    let body = bin(BinOp::Gt, sum, num("0"));
    let rows = Type::Var(ctx.fresh_tyvid());
    let ok = check_group_quote(&mut ctx, &b, &lambda(&["g"], body), &rows, &con(b.text), None);
    assert!(!ok);
    assert_eq!(ctx.errors.len(), 1);
    assert!(matches!(
        &ctx.errors[0],
        TypeError::QuoteUnsupportedExpr { detail, .. } if detail.contains("is not a record type")
    ));
}

#[test]
fn a_parameter_over_no_entity_is_reported() {
    let b = builtins();
    let mut ctx = context();
    assert!(!check_quote(&mut ctx, &b, &lambda(&["u"], field("u", "id")), &vec![], None));
    assert_eq!(ctx.errors.len(), 1);
    assert!(!check_quote(&mut ctx, &b, &var("f"), &vec![], None));
    assert_eq!(ctx.errors.len(), 1);
}

#[test]
fn a_rejected_body_without_parameters_is_reported() {
    let b = builtins();
    let mut ctx = context();
    let bare = Expr::RecordLit { fields: vec![], span: ds() };
    assert!(!check_quote(&mut ctx, &b, &lambda(&[], bare), &vec![], None));
    assert_eq!(ctx.errors.len(), 1);
    assert!(matches!(
        &ctx.errors[0],
        TypeError::QuoteUnsupportedExpr { detail, .. }
            if detail.contains("must name its result record")
    ));
    assert!(!check_quote(&mut ctx, &b, &lambda(&[], num("1")), &vec![], Some(&con(b.bool))));
    assert_eq!(ctx.errors.len(), 2);
    assert!(matches!(
        &ctx.errors[1],
        TypeError::QuoteUnsupportedExpr { detail, .. }
            if detail.contains("must be a boolean expression")
    ));
    assert!(ctx.quoted_lambdas.is_empty());
}

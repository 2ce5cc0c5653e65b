use ridge_typecheck::ast::{
    ActorDecl, ActorMember, Block, Expr, FieldInit, Ident, Item, LambdaParam, Literal, MigrateDecl,
    Module, Pattern, RecordCtor, TypeDecl, VersionedType,
};
use ridge_typecheck::ctx::InferCtx;
use ridge_typecheck::error::TypeError;
use ridge_typecheck::instantiate::{generalise, instantiate, monoscheme};
use ridge_typecheck::migrate::{
    resolve_rendered, typecheck_migrate_hooks, MigrateHistoryCtx, TypeHistory, VersionEntry, VersionHistory,
};
use ridge_typecheck::pipe_propagate::{check_discarded_result, infer_propagate};
use ridge_typecheck::records::{infer_field_access, infer_record_construction};
use ridge_typecheck::render::emit_internal;
use ridge_typecheck::rendered::read_rendered;
use ridge_typecheck::shapes::Rendered;
use ridge_typecheck::types::{
    ActorSchema, BuiltinTyCons, CapRow, CapabilitySet, RecordField, RecordSchema, RowTail, Span,
    TyConDecl, TyConId, TyConKind, Type,
};
use ridge_typecheck::unify::unify;
use rustc_hash::FxHashMap;

const USER: TyConId = TyConId(27);
const COUNTER: TyConId = TyConId(28);

fn builtins() -> BuiltinTyCons {
    BuiltinTyCons {
        int: TyConId(0),
        float: TyConId(1),
        bool: TyConId(2),
        text: TyConId(3),
        unit: TyConId(4),
        list: TyConId(5),
        map: TyConId(6),
        set: TyConId(7),
        option: TyConId(8),
        result: TyConId(9),
        handle: TyConId(10),
        timestamp: TyConId(11),
        error: TyConId(12),
        duration: TyConId(13),
        proc_output: TyConId(14),
        decimal: TyConId(16),
        uuid: TyConId(17),
        bytes: TyConId(18),
        date: TyConId(19),
        time: TyConId(20),
        json_value: TyConId(21),
        sql_value: TyConId(22),
        quote: TyConId(23),
        ret: TyConId(24),
        rows: TyConId(25),
        q_expr: TyConId(26),
    }
}

fn ds() -> Span {
    Span::point(0)
}

fn con(id: TyConId) -> Type {
    Type::Con(id, vec![])
}

fn id(t: &str) -> Ident {
    Ident { text: t.to_string(), span: ds() }
}

fn field(name: &str, ty: Type) -> RecordField {
    RecordField { name: name.to_string(), ty }
}

fn user_schema() -> RecordSchema {
    let b = builtins();
    RecordSchema {
        params: vec![],
        fields: vec![
            field("name", con(b.text)),
            field("age", con(b.int)),
            field("email", con(b.text)),
        ],
    }
}

fn decl(id: TyConId, name: &str, kind: TyConKind) -> TyConDecl {
    TyConDecl {
        id,
        name: name.to_string(),
        arity: 0,
        kind,
        def_module_raw: None,
        opaque: false,
        is_anon: false,
    }
}

fn tycons() -> Vec<TyConDecl> {
    let b = builtins();
    let mut all: Vec<TyConDecl> =
        (0..27).map(|i| decl(TyConId(i), "Builtin", TyConKind::Primitive)).collect();
    all.push(decl(USER, "User", TyConKind::Record(user_schema())));
    let schema = ActorSchema {
        state_fields: vec![field("count", con(b.int)), field("step", con(b.int))],
        handlers: vec![],
    };
    all.push(decl(COUNTER, "Counter", TyConKind::Actor(schema)));
    all
}

/// Enough of inference for the expressions of these tests.
fn infer(ctx: InferCtx, e: &Expr) -> (InferCtx, Type) {
    let b = builtins();
    let mut ctx = ctx;
    match e {
        Expr::Literal(Literal::Text { .. }) => (ctx, Type::Con(b.text, vec![])),
        Expr::Literal(Literal::Bool { .. }) => (ctx, Type::Con(b.bool, vec![])),
        Expr::Literal(Literal::Float { .. }) => (ctx, Type::Con(b.float, vec![])),
        Expr::Literal(_) => (ctx, Type::Con(b.int, vec![])),
        Expr::Unit(_) => (ctx, Type::Con(b.unit, vec![])),
        Expr::Ident(id) => {
            let found = ctx.env.lookup(&id.text).cloned();
            match found {
                Some(s) => {
                    let t = instantiate(&mut ctx, &s);
                    (ctx, t)
                }
                None => {
                    let t = emit_internal(&mut ctx, format!("unbound {}", id.text), id.span);
                    (ctx, t)
                }
            }
        }
        Expr::List { elems, .. } => {
            let elem = Type::Var(ctx.fresh_tyvid());
            for x in elems {
                let (c, t) = infer(ctx, x);
                ctx = c;
                if let Err(e) = unify(&mut ctx.vars, &t, &elem) {
                    ctx.errors.push(e);
                }
            }
            (ctx, Type::Con(b.list, vec![elem]))
        }
        Expr::Paren { inner, .. } => infer(ctx, inner),
        Expr::Lambda { params, body, .. } => {
            ctx.env.push_frame();
            let mut tys = vec![];
            for p in params {
                let v = Type::Var(ctx.fresh_tyvid());
                if let LambdaParam::Pattern(Pattern::Var { name, .. }) = p {
                    ctx.env.bind(name.text.clone(), monoscheme(v.clone()));
                }
                tys.push(v);
            }
            let (c, ret) = infer(ctx, body);
            ctx = c;
            ctx.env.pop_frame();
            let caps = CapRow::Concrete(CapabilitySet::pure());
            (ctx, Type::Fn { params: tys, ret: Box::new(ret), caps })
        }
        Expr::Call { callee, args, .. } => {
            let (c, f) = infer(ctx, callee);
            ctx = c;
            let mut params = vec![];
            for a in args {
                let (c, t) = infer(ctx, a);
                ctx = c;
                params.push(t);
            }
            let ret = Type::Var(ctx.fresh_tyvid());
            let caps = CapRow::Concrete(CapabilitySet::pure());
            let want = Type::Fn { params, ret: Box::new(ret.clone()), caps };
            match unify(&mut ctx.vars, &f, &want) {
                Ok(()) => {
                    let t = ctx.deep_resolve(&ret);
                    (ctx, t)
                }
                Err(e) => {
                    ctx.errors.push(e);
                    (ctx, Type::Error)
                }
            }
        }
        Expr::Block(block) => infer_block(ctx, block),
        Expr::Propagate { inner, span } => infer_propagate(ctx, &b, inner, *span, infer),
        Expr::Let { pat, value, .. } => {
            let (c, t) = infer(ctx, value);
            ctx = c;
            if let Pattern::Var { name, .. } = pat {
                let s = generalise(&ctx, &t);
                ctx.env.bind(name.text.clone(), s);
            }
            (ctx, Type::Con(b.unit, vec![]))
        }
        Expr::Var { name, value, .. } => {
            let (c, t) = infer(ctx, value);
            ctx = c;
            ctx.env.bind(name.text.clone(), monoscheme(t));
            (ctx, Type::Con(b.unit, vec![]))
        }
        Expr::FieldAccess { base, field, span } => {
            let (c, t) = infer(ctx, base);
            ctx = c;
            let t = infer_field_access(&mut ctx, &b, &t, field, *span, &tycons());
            (ctx, t)
        }
        Expr::Record { fields, span, .. } => {
            let schema = user_schema();
            infer_record_construction(ctx, &schema, USER, "User", fields, *span, infer)
        }
        Expr::RecordLit { fields, .. } => {
            let mut out = vec![];
            for f in fields {
                if let Some(v) = &f.value {
                    let (c, t) = infer(ctx, v);
                    ctx = c;
                    out.push((f.name.text.clone(), t));
                }
            }
            (ctx, Type::record(out, RowTail::Closed))
        }
        _ => {
            let t = emit_internal(&mut ctx, "not covered".to_string(), e.span());
            (ctx, t)
        }
    }
}

/// The type of the last statement; the values of the others are not to be lost.
fn infer_block(ctx: InferCtx, block: &Block) -> (InferCtx, Type) {
    let b = builtins();
    let mut ctx = ctx;
    ctx.env.push_frame();
    let mut last = Type::Con(b.unit, vec![]);
    for (i, stmt) in block.stmts.iter().enumerate() {
        let (c, t) = infer(ctx, stmt);
        ctx = c;
        if i + 1 < block.stmts.len() {
            check_discarded_result(&mut ctx, &b, stmt, &t);
        }
        last = t;
    }
    ctx.env.pop_frame();
    (ctx, last)
}

/// A hook is to be free of effects: nothing here has any.
fn pure(ctx: InferCtx, _name: &String, _body: &Expr, _at: Span) -> InferCtx {
    ctx
}

fn check(items: Vec<Item>, history: &VersionHistory) -> Vec<String> {
    let mut ctx = InferCtx::new();
    ctx.tycon_decls = tycons();
    ctx.user_tycon_names.insert("User".to_string(), USER);
    ctx.user_tycon_names.insert("Counter".to_string(), COUNTER);
    let ast = Module { consts: vec![], fns: vec![], items, span: ds() };
    let fqns = vec!["demo.main".to_string()];
    let tables: Vec<FxHashMap<String, TyConId>> = vec![];
    let hctx = MigrateHistoryCtx { history, module_fqns: &fqns, checked_tycon_names: &tables };
    let r = typecheck_migrate_hooks(
        ctx,
        &builtins(),
        &ast,
        &tycons(),
        &hctx,
        "demo.main",
        infer,
        pure,
    );
    r.errors.iter().map(|e| e.code().to_string()).collect()
}

fn history(name: &str, shape: &[(&str, &str)]) -> TypeHistory {
    TypeHistory {
        module: "demo.main".to_owned(),
        name: name.to_owned(),
        entries: vec![VersionEntry {
            ordinal: 1,
            hash: 111,
            shape: shape.iter().map(|(f, t)| ((*f).to_owned(), (*t).to_owned())).collect(),
        }],
    }
}

fn user_history() -> VersionHistory {
    VersionHistory {
        records: vec![history("User", &[("name", "Text"), ("age", "Int")])],
        actors: vec![],
    }
}

fn no_history() -> VersionHistory {
    VersionHistory { records: vec![], actors: vec![] }
}

fn earlier(name: &str) -> Expr {
    Expr::FieldAccess {
        base: Box::new(Expr::Ident(id("old"))),
        field: id(name),
        span: ds(),
    }
}

fn text(s: &str) -> Expr {
    Expr::Literal(Literal::Text { raw: s.to_string(), span: ds() })
}

fn num(s: &str) -> Expr {
    Expr::Literal(Literal::IntDec { raw: s.to_string(), span: ds() })
}

fn inits(fields: Vec<(&str, Expr)>) -> Vec<FieldInit> {
    fields
        .into_iter()
        .map(|(n, e)| FieldInit { name: id(n), value: Some(e), span: ds() })
        .collect()
}

fn user(fields: Vec<(&str, Expr)>) -> Expr {
    Expr::Record { constructor: RecordCtor::Bare(id("User")), fields: inits(fields), span: ds() }
}

fn hook(owner: &str, version: u32, body: Expr) -> MigrateDecl {
    MigrateDecl {
        old_type: VersionedType { name: id(owner), version, span: ds() },
        param: id("old"),
        body,
        span: ds(),
    }
}

fn user_type(migrates: Vec<MigrateDecl>) -> Vec<Item> {
    vec![Item::Type(TypeDecl { name: id("User"), migrates })]
}

/// `migrate (old: User@1) -> User = User { name = old.name, age = old.age, email = "?" }`
fn good_hook() -> MigrateDecl {
    hook("User", 1, user(vec![("name", earlier("name")), ("age", earlier("age")), ("email", text("?"))]))
}

#[test]
fn hook_with_known_history_typechecks() {
    assert_eq!(check(user_type(vec![good_hook()]), &user_history()), Vec::<String>::new());
}

#[test]
fn hook_without_history_is_t049() {
    let codes = check(user_type(vec![good_hook()]), &no_history());
    assert!(codes.iter().any(|c| c == "T049"), "{codes:?}");
}

#[test]
fn duplicate_edge_is_t050() {
    let codes = check(user_type(vec![good_hook(), good_hook()]), &user_history());
    assert!(codes.iter().any(|c| c == "T050"), "{codes:?}");
}

#[test]
fn body_not_fitting_new_shape_is_normal_type_error() {
    // Missing the new `email` field: an ordinary mismatch, no T049/T050.
    let short = hook("User", 1, user(vec![("name", earlier("name")), ("age", earlier("age"))]));
    let codes = check(user_type(vec![short]), &user_history());
    assert!(!codes.is_empty(), "a shape mismatch must error");
    assert!(!codes.iter().any(|c| c == "T049" || c == "T050"), "{codes:?}");
}

#[test]
fn actor_hook_with_history_typechecks() {
    let h = VersionHistory {
        records: vec![],
        actors: vec![history("Counter", &[("count", "Int")])],
    };
    let body = Expr::RecordLit {
        fields: inits(vec![("count", earlier("count")), ("step", num("1"))]),
        span: ds(),
    };
    let items = vec![Item::Actor(ActorDecl {
        name: id("Counter"),
        members: vec![ActorMember::Migrate(hook("Counter", 1, body)), ActorMember::Other],
        span: ds(),
    })];
    assert_eq!(check(items, &h), Vec::<String>::new());
}

#[test]
fn an_old_field_has_its_old_type() {
    let h = VersionHistory {
        records: vec![history("User", &[("name", "Text"), ("age", "Text")])],
        actors: vec![],
    };
    let codes = check(user_type(vec![good_hook()]), &h);
    assert!(codes.iter().any(|c| c == "T001"), "{codes:?}");
}

#[test]
fn a_hook_from_another_version_is_t049() {
    let late = hook("User", 2, user(vec![]));
    let codes = check(user_type(vec![late]), &user_history());
    assert_eq!(codes, vec!["T049".to_string()]);
}

#[test]
fn the_texts_of_the_history_are_read() {
    assert!(matches!(
        read_rendered("List<Int>"),
        Rendered::Named { name, args } if name == "List" && args.len() == 1
    ));
    assert!(matches!(read_rendered("_"), Rendered::Hole));
    assert!(matches!(read_rendered(""), Rendered::Hole));
    assert!(matches!(
        read_rendered("(Int, Text)"),
        Rendered::Tuple(ts) if ts.len() == 2
    ));
    assert!(matches!(
        read_rendered("(Map<Text, List<Int>>)"),
        Rendered::Named { name, args }
            if name == "Map" && matches!(&args[1], Rendered::Named { args, .. } if args.len() == 1)
    ));
    assert!(matches!(
        read_rendered("fn(Int, Bool) -> Text"),
        Rendered::Fn { params, .. } if params.len() == 2
    ));
    match read_rendered("{ a: Int, b: List<Text> | _ }") {
        Rendered::Record(fs) => {
            assert_eq!(fs[0].0, "a");
            assert_eq!(fs[1].0, "b");
        }
        other => panic!("{other:?}"),
    }
    assert!(matches!(read_rendered("{ :"), Rendered::Hole));
}

#[test]
fn what_cannot_be_read_is_a_new_variable() {
    let fqns = vec!["demo.main".to_string()];
    let tables: Vec<FxHashMap<String, TyConId>> = vec![];
    let none = no_history();
    let hctx = MigrateHistoryCtx { history: &none, module_fqns: &fqns, checked_tycon_names: &tables };
    let b = builtins();
    let mut ctx = InferCtx::new();
    ctx.tycon_decls = tycons();
    let t = resolve_rendered(&mut ctx, &b, &hctx, "{ :");
    assert!(matches!(t, Type::Var(_)), "{t:?}");
    let t = resolve_rendered(&mut ctx, &b, &hctx, "{ a: Int");
    assert!(matches!(t, Type::Var(_)), "{t:?}");
    let t = resolve_rendered(&mut ctx, &b, &hctx, "Nowhere");
    assert!(matches!(t, Type::Var(_)), "{t:?}");
    let t = resolve_rendered(&mut ctx, &b, &hctx, "Int");
    assert!(matches!(t, Type::Con(i, _) if i == b.int), "{t:?}");
    assert!(ctx.errors.is_empty());
}

#[test]
fn a_version_that_cannot_be_read_is_no_error() {
    let mut past = user_history();
    past.records[0].entries[0].shape.push(("note".to_string(), "{ :".to_string()));
    let codes = check(user_type(vec![good_hook()]), &past);
    assert!(codes.is_empty(), "{codes:?}");
}

use ridge_typecheck::ast::{
    ActorDecl, Block, Body, ConstDecl, Expr, FnDecl, HandlerDecl, HandlerParam, Ident, Item,
    LambdaParam, Literal, MatchArm, Module, Param, Pattern, ActorMember,
};
use ridge_typecheck::classes::{
    ClassInfo, ClassTable, FnArities, InstanceEntry, InstanceEnv, InstanceInfo, MethodSig,
};
use ridge_typecheck::ctx::{InferCtx, NodeKind};
use ridge_typecheck::error::TypeError;
use ridge_typecheck::heads::TypeExpr;
use ridge_typecheck::instantiate::{generalise, instantiate, monoscheme};
use ridge_typecheck::module_check::actor_caps;
use ridge_typecheck::pipe_propagate::{check_discarded_result, infer_propagate};
use ridge_typecheck::plans::DictPlan;
use ridge_typecheck::render::emit_internal;
use ridge_typecheck::setup::merge_imported_tycons;
use ridge_typecheck::stdlib_env::Stdlib;
use ridge_typecheck::types::{
    ActorSchema, BuiltinTyCons, CapRow, CapabilitySet, ClassId, Constraint, HandlerSig,
    RecordField, Scheme, Span, TyConDecl, TyConId, TyConKind, TyVid, Type,
};
use ridge_typecheck::unify::unify;
use ridge_typecheck::workspace::{
    global_names, reconciled_fn_dict_sig, typecheck_module_incremental, typecheck_module_inner,
    typecheck_workspace, Imported, ModuleId, ModuleInputs, ModuleTypecheckResult, Passes, Prepared,
    Shared,
};
use rustc_hash::FxHashMap;
use std::sync::Arc;

const DESCRIBE: ClassId = ClassId(40);
const COLOR: TyConId = TyConId(27);

fn builtins() -> BuiltinTyCons {
    BuiltinTyCons {
        int: TyConId(0),
        float: TyConId(1),
        bool: TyConId(2),
        text: TyConId(3),
        unit: TyConId(4),
        list: TyConId(5),
        map: TyConId(6),
        set: TyConId(7),
        option: TyConId(8),
        result: TyConId(9),
        handle: TyConId(10),
        timestamp: TyConId(11),
        error: TyConId(12),
        duration: TyConId(13),
        proc_output: TyConId(14),
        decimal: TyConId(16),
        uuid: TyConId(17),
        bytes: TyConId(18),
        date: TyConId(19),
        time: TyConId(20),
        json_value: TyConId(21),
        sql_value: TyConId(22),
        quote: TyConId(23),
        ret: TyConId(24),
        rows: TyConId(25),
        q_expr: TyConId(26),
    }
}

fn ds() -> Span {
    Span::point(0)
}

fn con(id: TyConId) -> Type {
    Type::Con(id, vec![])
}

fn id(t: &str) -> Ident {
    Ident { text: t.to_string(), span: ds() }
}

fn var(t: &str) -> Expr {
    Expr::Ident(id(t))
}

fn text(s: &str, at: u32) -> Expr {
    Expr::Literal(Literal::Text { raw: s.to_string(), span: Span::new(at, at + 1) })
}

fn call(f: &str, arg: &str, at: u32) -> Expr {
    Expr::Call {
        callee: Box::new(var(f)),
        args: vec![var(arg)],
        span: Span::new(at, at + 1),
    }
}

fn func(name: &str, at: u32, params: Vec<Param>, ret: Option<Type>, body: Expr) -> FnDecl {
    FnDecl {
        name: id(name),
        file_private: false,
        caps: CapabilitySet::pure(),
        params,
        ret,
        body: Body::Expr(body),
        span: Span::new(at, at + 1),
    }
}

fn module(fns: Vec<FnDecl>) -> Module {
    Module { consts: vec![], fns, items: vec![], span: ds() }
}

fn decl(id: TyConId, name: &str, kind: TyConKind) -> TyConDecl {
    TyConDecl {
        id,
        name: name.to_string(),
        arity: 0,
        kind,
        def_module_raw: None,
        opaque: false,
        is_anon: false,
    }
}

fn tycons() -> Vec<TyConDecl> {
    let mut all: Vec<TyConDecl> =
        (0..27).map(|i| decl(TyConId(i), "Builtin", TyConKind::Primitive)).collect();
    all.push(decl(COLOR, "Color", TyConKind::Primitive));
    all
}

/// `class Describe a = describe (x: a) -> Text`.
fn classes() -> ClassTable {
    ClassTable {
        classes: vec![ClassInfo {
            id: DESCRIBE,
            name: "Describe".to_string(),
            superclasses: vec![],
            fundeps: vec![],
            method_sigs: vec![MethodSig {
                name: "describe".to_string(),
                class_ty_vars: vec!["a".to_string()],
                ast_param_types: vec![TypeExpr::Var { name: "a".to_string() }],
                ast_ret_type: Some(TypeExpr::Primitive { name: "Text".to_string() }),
            }],
        }],
    }
}

/// `instance Describe Color`.
fn instances() -> InstanceEnv {
    InstanceEnv {
        entries: vec![InstanceEntry {
            class: DESCRIBE,
            key: vec![COLOR],
            info: InstanceInfo { id: 1, ctx_constraints: vec![], head_var_positions: vec![] },
            head_vars: vec![],
            head: vec![],
        }],
        fn_arities: FnArities { base: 1000, count: 8 },
    }
}

fn bind(ctx: InferCtx, pat: &Pattern, ty: &Type, _at: Span) -> InferCtx {
    let mut ctx = ctx;
    if let Pattern::Var { name, .. } = pat {
        ctx.env.bind(name.text.clone(), monoscheme(ty.clone()));
    }
    ctx
}

fn caps(
    ctx: InferCtx,
    _name: &String,
    declared: Option<CapabilitySet>,
    _body: &Expr,
    _at: Span,
) -> (InferCtx, CapabilitySet) {
    (ctx, declared.unwrap_or(CapabilitySet(8)))
}

/// Enough of reading written types for the signatures of these tests.
fn convert(
    ctx: InferCtx,
    t: &TypeExpr,
    names: &FxHashMap<String, TyConId>,
    vars: &FxHashMap<String, TyVid>,
) -> (InferCtx, Type) {
    let t = match t {
        TypeExpr::Primitive { .. } => con(builtins().text),
        TypeExpr::Named { name } => names.get(name).map_or(Type::Error, |id| con(*id)),
        TypeExpr::Var { name } => vars.get(name).map_or(Type::Error, |v| Type::Var(*v)),
        _ => Type::Error,
    };
    (ctx, t)
}

fn mailbox(_decl: &ActorDecl) -> Vec<TypeError> {
    vec![]
}

fn encapsulation(decl: &ActorDecl, caps: CapabilitySet, schema: &ActorSchema) -> Vec<TypeError> {
    assert_eq!(caps, actor_caps(schema));
    vec![TypeError::MailboxPolicyDropOldestNotShipped {
        actor: decl.name.text.clone(),
        span: decl.span,
    }]
}

/// Enough of inference for the expressions of these tests.
fn infer(ctx: InferCtx, e: &Expr) -> (InferCtx, Type) {
    let b = builtins();
    let mut ctx = ctx;
    match e {
        Expr::Literal(Literal::Text { .. }) => (ctx, Type::Con(b.text, vec![])),
        Expr::Literal(Literal::Bool { .. }) => (ctx, Type::Con(b.bool, vec![])),
        Expr::Literal(Literal::Float { .. }) => (ctx, Type::Con(b.float, vec![])),
        Expr::Literal(_) => (ctx, Type::Con(b.int, vec![])),
        Expr::Unit(_) => (ctx, Type::Con(b.unit, vec![])),
        Expr::Ident(id) => {
            let found = ctx.env.lookup(&id.text).cloned();
            match found {
                Some(s) => {
                    let t = instantiate(&mut ctx, &s);
                    (ctx, t)
                }
                None => {
                    let t = emit_internal(&mut ctx, format!("unbound {}", id.text), id.span);
                    (ctx, t)
                }
            }
        }
        Expr::List { elems, .. } => {
            let elem = Type::Var(ctx.fresh_tyvid());
            for x in elems {
                let (c, t) = infer(ctx, x);
                ctx = c;
                if let Err(e) = unify(&mut ctx.vars, &t, &elem) {
                    ctx.errors.push(e);
                }
            }
            (ctx, Type::Con(b.list, vec![elem]))
        }
        Expr::Paren { inner, .. } => infer(ctx, inner),
        Expr::Lambda { params, body, .. } => {
            ctx.env.push_frame();
            let mut tys = vec![];
            for p in params {
                let v = Type::Var(ctx.fresh_tyvid());
                if let LambdaParam::Pattern(Pattern::Var { name, .. }) = p {
                    ctx.env.bind(name.text.clone(), monoscheme(v.clone()));
                }
                tys.push(v);
            }
            let (c, ret) = infer(ctx, body);
            ctx = c;
            ctx.env.pop_frame();
            let caps = CapRow::Concrete(CapabilitySet::pure());
            (ctx, Type::Fn { params: tys, ret: Box::new(ret), caps })
        }
        Expr::Call { callee, args, .. } => {
            let (c, f) = infer(ctx, callee);
            ctx = c;
            let mut params = vec![];
            for a in args {
                let (c, t) = infer(ctx, a);
                ctx = c;
                params.push(t);
            }
            let ret = Type::Var(ctx.fresh_tyvid());
            let caps = CapRow::Concrete(CapabilitySet::pure());
            let want = Type::Fn { params, ret: Box::new(ret.clone()), caps };
            match unify(&mut ctx.vars, &f, &want) {
                Ok(()) => {
                    let t = ctx.deep_resolve(&ret);
                    (ctx, t)
                }
                Err(e) => {
                    ctx.errors.push(e);
                    (ctx, Type::Error)
                }
            }
        }
        Expr::Block(block) => infer_block(ctx, block),
        Expr::Propagate { inner, span } => infer_propagate(ctx, &b, inner, *span, infer),
        Expr::Let { pat, value, .. } => {
            let (c, t) = infer(ctx, value);
            ctx = c;
            if let Pattern::Var { name, .. } = pat {
                let s = generalise(&ctx, &t);
                ctx.env.bind(name.text.clone(), s);
            }
            (ctx, Type::Con(b.unit, vec![]))
        }
        Expr::Var { name, value, .. } => {
            let (c, t) = infer(ctx, value);
            ctx = c;
            ctx.env.bind(name.text.clone(), monoscheme(t));
            (ctx, Type::Con(b.unit, vec![]))
        }
        Expr::Match { scrutinee, arms, .. } => {
            let (c, _) = infer(ctx, scrutinee);
            ctx = c;
            let out = Type::Var(ctx.fresh_tyvid());
            for arm in arms {
                let (c, t) = infer(ctx, &arm.body);
                ctx = c;
                if let Err(e) = unify(&mut ctx.vars, &t, &out) {
                    ctx.errors.push(e);
                }
            }
            (ctx, out)
        }
        _ => {
            let t = emit_internal(&mut ctx, "not covered".to_string(), e.span());
            (ctx, t)
        }
    }
}

/// The type of the last statement; the values of the others are not to be lost.
fn infer_block(ctx: InferCtx, block: &Block) -> (InferCtx, Type) {
    let b = builtins();
    let mut ctx = ctx;
    ctx.env.push_frame();
    let mut last = Type::Con(b.unit, vec![]);
    for (i, stmt) in block.stmts.iter().enumerate() {
        let (c, t) = infer(ctx, stmt);
        ctx = c;
        if i + 1 < block.stmts.len() {
            check_discarded_result(&mut ctx, &b, stmt, &t);
        }
        last = t;
    }
    ctx.env.pop_frame();
    (ctx, last)
}

fn check_with(ctx: InferCtx, ast: Module, imported: &Vec<(String, Scheme)>) -> ModuleTypecheckResult {
    let class_table = classes();
    let instances = instances();
    let stdlib = Stdlib { modules: vec![], signatures: vec![], ctors: vec![] };
    let none: FxHashMap<String, TyConId> = FxHashMap::default();
    let imports = vec![];
    let inputs = ModuleInputs {
        class_table: &class_table,
        instances: &instances,
        codecs: Some((ClassId(41), ClassId(42))),
        imports: &imports,
        stdlib: &stdlib,
        stdlib_names: &none,
        global_names: &none,
        imported_schemes: imported,
    };
    let passes = Passes { infer, bind, caps, mailbox, encapsulation, suggest, convert };
    let decls = tycons();
    typecheck_module_inner(
        ctx,
        &builtins(),
        &inputs,
        ModuleId(0),
        Arc::new(ast),
        &decls,
        vec![],
        &passes,
    )
}

/// A context with the constructors of `type Color = Red | Green | Blue`.
fn color_context() -> InferCtx {
    let mut ctx = InferCtx::new();
    ctx.tycon_decls = tycons();
    ctx.env.push_frame();
    for name in ["Red", "Green", "Blue"] {
        ctx.env.bind(name.to_string(), monoscheme(con(COLOR)));
    }
    ctx
}

fn color_desc() -> FnDecl {
    let arm = |s: &str| MatchArm { pattern: Pattern::Other { span: Span::point(50) }, guard: None, body: text(s, 50) };
    let body = Expr::Match {
        scrutinee: Box::new(var("c")),
        arms: vec![arm("red"), arm("green"), arm("blue")],
        span: Span::new(51, 52),
    };
    let params = vec![Param::Annotated { name: id("c"), ty: con(COLOR) }];
    func("colorDesc", 53, params, Some(con(builtins().text)), body)
}

/// `pub fn test_call () -> Text = describe Red`
#[test]
fn class_method_concrete_call_infers_ret_no_t030() {
    let b = builtins();
    let test_call = func("test_call", 70, vec![], Some(con(b.text)), call("describe", "Red", 71));
    let result = check_with(color_context(), module(vec![color_desc(), test_call]), &vec![]);
    let t030_count = result.errors.iter().filter(|e| e.code() == "T030").count();
    assert_eq!(
        t030_count, 0,
        "T030 must not fire for a concrete method call; errors: {:?}",
        result.errors
    );
    let all_errors: Vec<_> = result.errors.iter().filter(|e| e.code() != "T023").collect();
    assert!(
        all_errors.is_empty(),
        "no typecheck errors expected for concrete method call; errors: {all_errors:?}"
    );
    assert!(result
        .typed
        .dict_resolution
        .values()
        .any(|p| matches!(p, DictPlan::Static { tycon, .. } if *tycon == COLOR)));
}

/// `fn announce x -> Text = describe x` and `test_call () = announce Red`.
#[test]
fn class_method_implicit_constraint_acquisition() {
    let b = builtins();
    let announce = func(
        "announce",
        60,
        vec![Param::Bare(id("x"))],
        Some(con(b.text)),
        call("describe", "x", 61),
    );
    let test_call = func("test_call", 70, vec![], Some(con(b.text)), call("announce", "Red", 71));
    let mut ctx = color_context();
    ctx.node_ids.assign(Span::new(61, 62), NodeKind::Expr, 5);
    let result = check_with(ctx, module(vec![color_desc(), announce, test_call]), &vec![]);
    let t030_count = result.errors.iter().filter(|e| e.code() == "T030").count();
    assert_eq!(
        t030_count, 0,
        "T030 must not fire for implicit constraint acquisition; errors: {:?}",
        result.errors
    );
    let has_constrained_announce =
        result.typed.schemes.values().any(|s| !s.constraints.is_empty());
    assert!(
        has_constrained_announce,
        "expected `announce` to have a constraint in its scheme; schemes: {:?}",
        result.typed.schemes
    );
    let announce = &result.name_schemes["announce"];
    assert_eq!(announce.constraints.len(), 1);
    assert_eq!(announce.constraints[0].class, DESCRIBE);
    assert!(announce.vars.contains(&announce.constraints[0].sole_ty()));
    assert!(result.name_schemes["test_call"].constraints.is_empty());
}

/// `fn io main () = ...`: its capabilities are found by the id of its body.
#[test]
fn t5_inferred_caps_uses_real_node_id() {
    let mut main = func("main", 30, vec![], None, text("hello", 33));
    main.caps = CapabilitySet(2);
    let mut ctx = color_context();
    ctx.node_ids.assign(Span::new(33, 34), NodeKind::Expr, 17);
    let result = check_with(ctx, module(vec![main]), &vec![]);
    assert_eq!(result.typed.inferred_caps.get(&17), Some(&CapabilitySet(2)));
    assert_eq!(result.typed.inferred_caps.get(&30), Some(&CapabilitySet(2)));
}

#[test]
fn a_missing_instance_is_reported_where_the_component_starts() {
    let mut ctx = color_context();
    ctx.env.bind("n".to_string(), monoscheme(con(builtins().int)));
    let bad = func("bad", 80, vec![], None, call("describe", "n", 81));
    let result = check_with(ctx, module(vec![bad]), &vec![]);
    let e = result.errors.iter().find(|e| e.code() == "T029");
    assert!(matches!(e, Some(e) if e.span() == Span::new(80, 81)), "{:?}", result.errors);
}

#[test]
fn constants_and_imports_are_seen_by_the_functions() {
    let b = builtins();
    let mut ast = module(vec![
        func("f", 10, vec![], None, var("limit")),
        func("g", 20, vec![], None, var("shared")),
        func("shared", 25, vec![], None, text("mine", 26)),
    ]);
    ast.consts.push(ConstDecl {
        name: id("limit"),
        value: Expr::Literal(Literal::IntDec { raw: "3".to_string(), span: ds() }),
    });
    let imported = vec![("shared".to_string(), monoscheme(con(b.bool)))];
    let result = check_with(color_context(), ast, &imported);
    assert!(result.errors.is_empty(), "{:?}", result.errors);
    let ret = |name: &str| match &result.name_schemes[name].ty {
        Type::Fn { ret, .. } => match &**ret {
            Type::Con(i, _) => Some(*i),
            _ => None,
        },
        Type::Con(i, _) => Some(*i),
        _ => None,
    };
    assert_eq!(ret("limit"), Some(b.int));
    assert_eq!(ret("f"), Some(b.int));
    assert!(matches!(&result.name_schemes["shared"].ty, Type::Fn { .. }));
}

fn counter_schema() -> ActorSchema {
    let b = builtins();
    ActorSchema {
        state_fields: vec![RecordField { name: "count".to_string(), ty: con(b.int) }],
        handlers: vec![
            HandlerSig {
                name: "bump".to_string(),
                params: vec![con(b.text)],
                caps: CapabilitySet(1),
            },
            HandlerSig { name: "drop".to_string(), params: vec![], caps: CapabilitySet(4) },
        ],
    }
}

fn counter_tycons() -> Vec<TyConDecl> {
    let mut all = tycons();
    all.push(decl(TyConId(28), "Counter", TyConKind::Actor(counter_schema())));
    all
}

#[test]
fn actors_are_walked_and_ruled() {
    let b = builtins();
    assert_eq!(actor_caps(&counter_schema()), CapabilitySet(5));
    let mut ctx = color_context();
    ctx.tycon_decls = counter_tycons();
    ctx.user_tycon_names.insert("Counter".to_string(), TyConId(28));
    let mut ast = module(vec![]);
    ast.items.push(Item::Actor(ActorDecl {
        name: id("Counter"),
        members: vec![ActorMember::On(HandlerDecl {
            params: vec![HandlerParam::Named(id("by"))],
            body: Expr::List { elems: vec![var("by"), var("count")], span: ds() },
        })],
        span: Span::new(90, 91),
    }));
    let class_table = ClassTable { classes: vec![] };
    let instances = instances();
    let stdlib = Stdlib { modules: vec![], signatures: vec![], ctors: vec![] };
    let none: FxHashMap<String, TyConId> = FxHashMap::default();
    let imports = vec![];
    let imported = vec![];
    let inputs = ModuleInputs {
        class_table: &class_table,
        instances: &instances,
        codecs: None,
        imports: &imports,
        stdlib: &stdlib,
        stdlib_names: &none,
        global_names: &none,
        imported_schemes: &imported,
    };
    let passes = Passes { infer, bind, caps, mailbox, encapsulation, suggest, convert };
    let result = typecheck_module_inner(
        ctx,
        &b,
        &inputs,
        ModuleId(3),
        Arc::new(ast),
        &counter_tycons(),
        vec![],
        &passes,
    );
    assert_eq!(result.typed.id, ModuleId(3));
    // The body puts a text and a number into one list.
    assert!(result.errors.iter().any(|e| e.code() == "T001"), "{:?}", result.errors);
    assert_eq!(result.errors[result.errors.len() - 1].code(), "T027");
}

fn suggest(wrong: &String, names: &Vec<String>) -> Vec<String> {
    names.iter().filter(|n| n.chars().next() == wrong.chars().next()).cloned().collect()
}

fn shared() -> Shared {
    Shared {
        builtins: builtins(),
        class_table: classes(),
        instance_env: instances(),
        encode: ClassId(41),
        decode: ClassId(42),
        stdlib: Stdlib { modules: vec![], signatures: vec![], ctors: vec![] },
        stdlib_tycons: FxHashMap::default(),
    }
}

/// A module with one function, which adds a constructor of its own.
fn prepared(name: &str, body: Expr, given: Vec<TyConDecl>) -> Prepared {
    let mut given = given;
    let at = given.len() as u32;
    given.push(decl(TyConId(at), "Made", TyConKind::Primitive));
    let mut ctx = InferCtx::new();
    ctx.env.push_frame();
    for k in 0..given.len() {
        ctx.tycon_decls.push(decl(TyConId(k as u32), "T", TyConKind::Primitive));
    }
    Prepared {
        ctx,
        ast: Arc::new(module(vec![func(name, 5, vec![], None, body)])),
        tycons: given,
        anon_records: vec![],
        imports: vec![],
    }
}

#[test]
fn a_workspace_keeps_its_modules_in_their_slots() {
    let prepare = |id: ModuleId, given: Vec<TyConDecl>, exported: &Vec<FxHashMap<String, Scheme>>| {
        if id.0 == 1 {
            return Err(given);
        }
        if id.0 == 2 {
            assert!(exported[0].contains_key("a"));
        }
        let body = if id.0 == 0 { text("1", 6) } else { var("nowhere") };
        let name = if id.0 == 0 { "a" } else { "b" };
        let imported = Imported { tycons: vec![], schemes: vec![] };
        Ok((prepared(name, body, given), imported))
    };
    let ids = vec![ModuleId(0), ModuleId(1), ModuleId(2), ModuleId(3)];
    let order = vec![ModuleId(0), ModuleId(1), ModuleId(2)];
    let passes = Passes { infer, bind, caps, mailbox, encapsulation, suggest, convert };
    let names: FxHashMap<String, TyConId> = FxHashMap::default();
    let first = vec![TypeError::QuoteEntityUnknown { span: Span::point(7) }];
    let r = typecheck_workspace(
        &ids,
        &order,
        tycons(),
        shared(),
        &names,
        vec!["derived".to_string()],
        first,
        prepare,
        &passes,
    );
    assert_eq!(r.typed.modules.len(), 4);
    for (k, m) in r.typed.modules.iter().enumerate() {
        assert_eq!(m.id, ModuleId(k as u32));
    }
    assert_eq!(r.typed.modules[0].ast.fns.len(), 1);
    assert_eq!(r.typed.modules[1].ast.fns.len(), 0);
    assert_eq!(r.errors[0].0, ModuleId(0));
    assert_eq!(r.errors[0].1.code(), "T042");
    assert!(r.errors[1..].iter().all(|(id, _)| *id == ModuleId(2)), "{:?}", r.errors);
    assert!(r.errors.len() > 1);
    assert_eq!(r.typed.tycons.len(), tycons().len() + 2);
    for (k, d) in tycons().iter().enumerate() {
        assert_eq!(r.typed.tycons[k].id, d.id);
    }
    assert_eq!(r.typed.derived_instances, vec!["derived".to_string()]);
}

#[test]
fn an_edited_module_is_checked_at_the_end_of_the_constructors() {
    let passes = Passes { infer, bind, caps, mailbox, encapsulation, suggest, convert };
    let ids = vec![ModuleId(0), ModuleId(1)];
    let r = typecheck_module_incremental(
        ModuleId(1),
        &ids,
        2,
        tycons(),
        &shared(),
        |given: Vec<TyConDecl>| prepared("a", text("1", 6), given),
        &passes,
    );
    assert!(r.result.errors.is_empty(), "{:?}", r.result.errors);
    assert_eq!(r.result.typed.id, ModuleId(1));
    assert_eq!(r.tycons.len(), tycons().len() + 1);
    for (k, d) in tycons().iter().enumerate() {
        assert_eq!(r.tycons[k].id, d.id);
    }
}

#[test]
fn an_unknown_module_is_left_empty() {
    let never = |_: Vec<TyConDecl>| -> Prepared { panic!("not asked") };
    let passes = Passes { infer, bind, caps, mailbox, encapsulation, suggest, convert };
    let ids = vec![ModuleId(0), ModuleId(1)];
    for (id, sources) in [(9, 20), (1, 1)] {
        let r = typecheck_module_incremental(
            ModuleId(id),
            &ids,
            sources,
            tycons(),
            &shared(),
            never,
            &passes,
        );
        assert!(r.result.errors.is_empty());
        assert_eq!(r.result.typed.id, ModuleId(id));
        assert_eq!(r.tycons.len(), tycons().len());
    }
}

#[test]
fn the_names_of_a_workspace_and_of_a_module() {
    let names = global_names(&tycons());
    assert_eq!(names.get("Color"), Some(&COLOR));
    let mut own: FxHashMap<String, TyConId> = FxHashMap::default();
    own.insert("Color".to_string(), TyConId(3));
    merge_imported_tycons(
        &mut own,
        &vec![("Color".to_string(), COLOR), ("Shade".to_string(), TyConId(9))],
    );
    assert_eq!(own.get("Color"), Some(&TyConId(3)));
    assert_eq!(own.get("Shade"), Some(&TyConId(9)));
}

#[test]
fn the_parts_of_a_reconciled_scheme() {
    let b = builtins();
    let scheme = Scheme {
        vars: vec![TyVid(0)],
        cap_vars: vec![],
        ty: Type::Fn {
            params: vec![Type::Var(TyVid(0))],
            ret: Box::new(con(b.text)),
            caps: CapRow::Concrete(CapabilitySet::pure()),
        },
        constraints: vec![Constraint::single(DESCRIBE, TyVid(0))],
    };
    match reconciled_fn_dict_sig(Some(scheme)) {
        Some((cs, ps, ret)) => {
            assert_eq!(cs[0].class, DESCRIBE);
            assert!(matches!(ps[..], [Type::Var(TyVid(0))]));
            assert!(matches!(ret, Type::Con(i, _) if i == b.text));
        }
        None => panic!("a function"),
    }
    assert!(reconciled_fn_dict_sig(None).is_none());
    assert!(reconciled_fn_dict_sig(Some(monoscheme(con(b.int)))).is_none());
}

#[test]
fn a_module_is_checked_under_its_id_and_its_suggestions_are_picked() {
    let mut ctx = color_context();
    ctx.errors.push(TypeError::UnknownField {
        record: "User".to_string(),
        field: "nme".to_string(),
        suggestions: vec!["name".to_string(), "age".to_string()],
        span: ds(),
    });
    let class_table = classes();
    let instances = instances();
    let stdlib = Stdlib { modules: vec![], signatures: vec![], ctors: vec![] };
    let none: FxHashMap<String, TyConId> = FxHashMap::default();
    let imports = vec![];
    let imported = vec![];
    let inputs = ModuleInputs {
        class_table: &class_table,
        instances: &instances,
        codecs: None,
        imports: &imports,
        stdlib: &stdlib,
        stdlib_names: &none,
        global_names: &none,
        imported_schemes: &imported,
    };
    let passes = Passes {
        infer: |c: InferCtx, e: &Expr| {
            assert_eq!(c.current_module_raw, Some(3));
            infer(c, e)
        },
        bind,
        caps,
        mailbox,
        encapsulation,
        suggest,
        convert,
    };
    let result = typecheck_module_inner(
        ctx,
        &builtins(),
        &inputs,
        ModuleId(3),
        Arc::new(module(vec![func("f", 5, vec![], None, text("x", 6))])),
        &tycons(),
        vec![],
        &passes,
    );
    assert_eq!(result.errors.len(), 1, "{:?}", result.errors);
    match &result.errors[0] {
        TypeError::UnknownField { suggestions, .. } => {
            assert_eq!(suggestions, &vec!["name".to_string()])
        }
        other => panic!("{other:?}"),
    }
}

/// What `f` of `f () = tag Red` returns, where `class Describe a = tag (x: a) ->
/// Label`, `Label` names a type of the workspace, and the module may have a
/// `Label` of its own.
fn tag_of_red(own: Option<TyConId>) -> Type {
    let mut class_table = classes();
    class_table.classes[0].method_sigs[0] = MethodSig {
        name: "tag".to_string(),
        class_ty_vars: vec!["a".to_string()],
        ast_param_types: vec![TypeExpr::Var { name: "a".to_string() }],
        ast_ret_type: Some(TypeExpr::Named { name: "Label".to_string() }),
    };
    let instances = instances();
    let stdlib = Stdlib { modules: vec![], signatures: vec![], ctors: vec![] };
    let none: FxHashMap<String, TyConId> = FxHashMap::default();
    let mut global: FxHashMap<String, TyConId> = FxHashMap::default();
    global.insert("Label".to_string(), COLOR);
    let imports = vec![];
    let imported = vec![];
    let inputs = ModuleInputs {
        class_table: &class_table,
        instances: &instances,
        codecs: Some((ClassId(41), ClassId(42))),
        imports: &imports,
        stdlib: &stdlib,
        stdlib_names: &none,
        global_names: &global,
        imported_schemes: &imported,
    };
    let mut ctx = color_context();
    if let Some(id) = own {
        ctx.user_tycon_names.insert("Label".to_string(), id);
    }
    let passes = Passes { infer, bind, caps, mailbox, encapsulation, suggest, convert };
    let f = func("f", 70, vec![], None, call("tag", "Red", 71));
    let result = typecheck_module_inner(
        ctx,
        &builtins(),
        &inputs,
        ModuleId(0),
        Arc::new(module(vec![f])),
        &tycons(),
        vec![],
        &passes,
    );
    match &result.name_schemes["f"].ty {
        Type::Fn { ret, .. } => (**ret).clone(),
        other => panic!("{other:?}"),
    }
}

#[test]
fn a_signature_of_another_module_is_read_by_the_names_of_this_one() {
    let b = builtins();
    assert!(matches!(tag_of_red(None), Type::Con(id, _) if id == COLOR));
    assert!(matches!(tag_of_red(Some(b.uuid)), Type::Con(id, _) if id == b.uuid));
}

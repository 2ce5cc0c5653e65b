use ridge_typecheck::ast::{
    Block, Body, Expr, FieldInit, FnDecl, Ident, InterpPart, LambdaParam, Literal, Param, Pattern,
    QualifiedName, RecordCtor, UnOp,
};
use ridge_typecheck::call_graph::build_call_graph;
use ridge_typecheck::classes::{ClassTable, FnArities, InstanceEnv};
use ridge_typecheck::ctx::{InferCtx, NodeIdMap, NodeKind};
use ridge_typecheck::decls::{detect_unsolved_type_vars, typecheck_module_decls};
use ridge_typecheck::error::TypeError;
use ridge_typecheck::instantiate::{generalise, instantiate, monoscheme};
use ridge_typecheck::pipe_propagate::{check_discarded_result, infer_propagate};
use ridge_typecheck::render::emit_internal;
use ridge_typecheck::scc::{tarjan_sccs, CallGraph, DeclId};
use ridge_typecheck::types::{
    BuiltinTyCons, CapRow, CapabilitySet, Scheme, Span, TyConId, Type,
};
use ridge_typecheck::unify::unify;

fn builtins() -> BuiltinTyCons {
    BuiltinTyCons {
        int: TyConId(0),
        float: TyConId(1),
        bool: TyConId(2),
        text: TyConId(3),
        unit: TyConId(4),
        list: TyConId(5),
        map: TyConId(6),
        set: TyConId(7),
        option: TyConId(8),
        result: TyConId(9),
        handle: TyConId(10),
        timestamp: TyConId(11),
        error: TyConId(12),
        duration: TyConId(13),
        proc_output: TyConId(14),
        decimal: TyConId(16),
        uuid: TyConId(17),
        bytes: TyConId(18),
        date: TyConId(19),
        time: TyConId(20),
        json_value: TyConId(21),
        sql_value: TyConId(22),
        quote: TyConId(23),
        ret: TyConId(24),
        rows: TyConId(25),
        q_expr: TyConId(26),
    }
}

fn ds() -> Span {
    Span::point(0)
}

fn id(t: &str) -> Ident {
    Ident { text: t.to_string(), span: ds() }
}

/// A function of one parameter `n`.
fn make_fn_decl(name: &str, body: Expr) -> FnDecl {
    FnDecl {
        file_private: true,
        caps: CapabilitySet::pure(),
        name: id(name),
        params: vec![Param::Bare(id("n"))],
        ret: None,
        body: Body::Expr(body),
        span: ds(),
    }
}

/// A function without parameters at a place of its own.
fn make_fn_decl_at(name: &str, start: u32, body: Expr) -> FnDecl {
    let sp = Span::new(start, start + 10);
    FnDecl {
        file_private: true,
        caps: CapabilitySet::pure(),
        name: Ident { text: name.to_string(), span: sp },
        params: vec![],
        ret: None,
        body: Body::Expr(body),
        span: sp,
    }
}

fn check(ctx: &mut InferCtx, decls: &Vec<FnDecl>) {
    let taken = std::mem::replace(ctx, InferCtx::new());
    let classes = ClassTable { classes: vec![] };
    let instances =
        InstanceEnv { entries: vec![], fn_arities: FnArities { base: 1000, count: 8 } };
    *ctx = typecheck_module_decls(taken, &builtins(), decls, &classes, &instances, &infer);
}

/// Enough of inference for the expressions of these tests.
fn infer(ctx: InferCtx, e: &Expr) -> (InferCtx, Type) {
    let b = builtins();
    let mut ctx = ctx;
    match e {
        Expr::Literal(Literal::Text { .. }) => (ctx, Type::Con(b.text, vec![])),
        Expr::Literal(Literal::Bool { .. }) => (ctx, Type::Con(b.bool, vec![])),
        Expr::Literal(Literal::Float { .. }) => (ctx, Type::Con(b.float, vec![])),
        Expr::Literal(_) => (ctx, Type::Con(b.int, vec![])),
        Expr::Unit(_) => (ctx, Type::Con(b.unit, vec![])),
        Expr::Ident(id) => {
            let found = ctx.env.lookup(&id.text).cloned();
            match found {
                Some(s) => {
                    let t = instantiate(&mut ctx, &s);
                    (ctx, t)
                }
                None => {
                    let t = emit_internal(&mut ctx, format!("unbound {}", id.text), id.span);
                    (ctx, t)
                }
            }
        }
        Expr::List { elems, .. } => {
            let elem = Type::Var(ctx.fresh_tyvid());
            for x in elems {
                let (c, t) = infer(ctx, x);
                ctx = c;
                if let Err(e) = unify(&mut ctx.vars, &t, &elem) {
                    ctx.errors.push(e);
                }
            }
            (ctx, Type::Con(b.list, vec![elem]))
        }
        Expr::Paren { inner, .. } => infer(ctx, inner),
        Expr::Lambda { params, body, .. } => {
            ctx.env.push_frame();
            let mut tys = vec![];
            for p in params {
                let v = Type::Var(ctx.fresh_tyvid());
                if let LambdaParam::Pattern(Pattern::Var { name, .. }) = p {
                    ctx.env.bind(name.text.clone(), monoscheme(v.clone()));
                }
                tys.push(v);
            }
            let (c, ret) = infer(ctx, body);
            ctx = c;
            ctx.env.pop_frame();
            let caps = CapRow::Concrete(CapabilitySet::pure());
            (ctx, Type::Fn { params: tys, ret: Box::new(ret), caps })
        }
        Expr::Call { callee, args, .. } => {
            let (c, f) = infer(ctx, callee);
            ctx = c;
            let mut params = vec![];
            for a in args {
                let (c, t) = infer(ctx, a);
                ctx = c;
                params.push(t);
            }
            let ret = Type::Var(ctx.fresh_tyvid());
            let caps = CapRow::Concrete(CapabilitySet::pure());
            let want = Type::Fn { params, ret: Box::new(ret.clone()), caps };
            match unify(&mut ctx.vars, &f, &want) {
                Ok(()) => {
                    let t = ctx.deep_resolve(&ret);
                    (ctx, t)
                }
                Err(e) => {
                    ctx.errors.push(e);
                    (ctx, Type::Error)
                }
            }
        }
        Expr::Block(block) => infer_block(ctx, block),
        Expr::Propagate { inner, span } => infer_propagate(ctx, &b, inner, *span, infer),
        Expr::Let { pat, value, .. } => {
            let (c, t) = infer(ctx, value);
            ctx = c;
            if let Pattern::Var { name, .. } = pat {
                let s = generalise(&ctx, &t);
                ctx.env.bind(name.text.clone(), s);
            }
            (ctx, Type::Con(b.unit, vec![]))
        }
        Expr::Var { name, value, .. } => {
            let (c, t) = infer(ctx, value);
            ctx = c;
            ctx.env.bind(name.text.clone(), monoscheme(t));
            (ctx, Type::Con(b.unit, vec![]))
        }
        _ => {
            let t = emit_internal(&mut ctx, "not covered".to_string(), e.span());
            (ctx, t)
        }
    }
}

/// The type of the last statement; the values of the others are not to be lost.
fn infer_block(ctx: InferCtx, block: &Block) -> (InferCtx, Type) {
    let b = builtins();
    let mut ctx = ctx;
    ctx.env.push_frame();
    let mut last = Type::Con(b.unit, vec![]);
    for (i, stmt) in block.stmts.iter().enumerate() {
        let (c, t) = infer(ctx, stmt);
        ctx = c;
        if i + 1 < block.stmts.len() {
            check_discarded_result(&mut ctx, &b, stmt, &t);
        }
        last = t;
    }
    ctx.env.pop_frame();
    (ctx, last)
}

#[test]
fn scc_single_recursive_fn() {
    // fact body: fact(n)  i.e., Call { callee: Ident("fact"), args: [Ident("n")] }
    let body = Expr::Call {
        callee: Box::new(Expr::Ident(id("fact"))),
        args: vec![Expr::Ident(id("n"))],
        span: ds(),
    };
    let fact = make_fn_decl("fact", body);
    let decls: Vec<FnDecl> = vec![fact];
    let graph = build_call_graph(&decls);

    // fact calls fact → self-loop → single SCC of size 1.
    let sccs = tarjan_sccs(&graph);
    assert_eq!(sccs.len(), 1);
    assert_eq!(sccs[0], vec![DeclId(0)]);
}

#[test]
fn scc_mutually_recursive_even_odd_one_scc() {
    // even body: odd(n)
    let even_body = Expr::Call {
        callee: Box::new(Expr::Ident(id("odd"))),
        args: vec![Expr::Ident(id("n"))],
        span: ds(),
    };
    // odd body: even(n)
    let odd_body = Expr::Call {
        callee: Box::new(Expr::Ident(id("even"))),
        args: vec![Expr::Ident(id("n"))],
        span: ds(),
    };
    let even = make_fn_decl("even", even_body);
    let odd = make_fn_decl("odd", odd_body);
    let decls: Vec<FnDecl> = vec![even, odd];
    let graph = build_call_graph(&decls);

    let sccs = tarjan_sccs(&graph);
    // One SCC containing both.
    assert_eq!(sccs.len(), 1, "expected 1 SCC, got {sccs:?}");
    let scc = &sccs[0];
    assert_eq!(scc.len(), 2, "SCC must contain both even and odd");
        assert!(scc.contains(&DeclId(0)), "even must be in SCC");
    assert!(scc.contains(&DeclId(1)), "odd must be in SCC");
}

#[test]
fn scc_independent_fns_separate_sccs() {
    // foo body: 42 (no calls to other top-level fns)
    let foo_body = Expr::Literal(Literal::IntDec {
        raw: "42".to_string(),
        span: ds(),
    });
    let bar_body = Expr::Literal(Literal::IntDec {
        raw: "7".to_string(),
        span: ds(),
    });
    let foo = make_fn_decl("foo", foo_body);
    let bar = make_fn_decl("bar", bar_body);
    let decls: Vec<FnDecl> = vec![foo, bar];
    let graph = build_call_graph(&decls);

    let sccs = tarjan_sccs(&graph);
    assert_eq!(sccs.len(), 2, "two independent fns → 2 SCCs");
    for scc in &sccs {
        assert_eq!(scc.len(), 1, "each SCC must have size 1");
    }
}

#[test]
fn typecheck_module_decls_identity_generalised() {
    let b = builtins();
    let mut ctx = InferCtx::new();
    ctx.env.push_frame();

    // identity body: n
    let body = Expr::Ident(id("n"));
    let decl = make_fn_decl("identity", body);
    let decls: Vec<FnDecl> = vec![decl];

    check(&mut ctx, &decls);

    let scheme = ctx
        .env
        .lookup("identity")
        .cloned()
        .expect("identity must be bound after typecheck");

    assert!(
        !scheme.vars.is_empty(),
        "identity must be generalised; got {scheme:?}"
    );
    assert!(
        ctx.errors.iter().all(|e| e.code() != "T023"),
        "no T023 expected for identity; errors: {:?}",
        ctx.errors
    );

    ctx.env.pop_frame();
}

#[test]
fn typecheck_module_decls_mutually_recursive_no_errors() {
    let b = builtins();
    let mut ctx = InferCtx::new();
    ctx.env.push_frame();

    let even_body = Expr::Call {
        callee: Box::new(Expr::Ident(id("odd"))),
        args: vec![Expr::Ident(id("n"))],
        span: ds(),
    };
    let odd_body = Expr::Call {
        callee: Box::new(Expr::Ident(id("even"))),
        args: vec![Expr::Ident(id("n"))],
        span: ds(),
    };
    let even = make_fn_decl("even", even_body);
    let odd = make_fn_decl("odd", odd_body);
    let decls: Vec<FnDecl> = vec![even, odd];

    check(&mut ctx, &decls);

    // Both names must be in env.
    assert!(ctx.env.lookup("even").is_some(), "even must be bound");
    assert!(ctx.env.lookup("odd").is_some(), "odd must be bound");

    // No T001 TypeMismatch errors.
    let t001_errors: Vec<_> = ctx.errors.iter().filter(|e| e.code() == "T001").collect();
    assert!(
        t001_errors.is_empty(),
        "no T001 expected; got {t001_errors:?}"
    );

    ctx.env.pop_frame();
}

#[test]
fn typecheck_module_decls_single_non_recursive() {
    let b = builtins();
    let mut ctx = InferCtx::new();
    ctx.env.push_frame();

    let body = Expr::Literal(Literal::IntDec {
        raw: "42".to_string(),
        span: ds(),
    });
    let decl = make_fn_decl("const_42", body);
    let decls: Vec<FnDecl> = vec![decl];

    check(&mut ctx, &decls);

    let scheme = ctx
        .env
        .lookup("const_42")
        .cloned()
        .expect("const_42 must be bound");

    let resolved = ctx.deep_resolve(&scheme.ty);
    match resolved {
        Type::Fn { ret, .. } => {
            let ret_resolved = ctx.deep_resolve(&ret);
            assert!(
                matches!(ret_resolved, Type::Con(id, _) if id == b.int),
                "const_42 must return Int, got {ret_resolved:?}"
            );
        }
        other => panic!("expected Fn type for const_42, got {other:?}"),
    }

    ctx.env.pop_frame();
}

#[test]
fn unsolved_type_variable_t023_fires() {
    let mut ctx = InferCtx::new();
    ctx.env.push_frame();

    // Allocate a fresh TyVid, never unify it.
    let unbound = ctx.fresh_tyvid();

    // Bind a scheme with that free var in the body (not in vars — unsolved).
    let scheme = Scheme {
        vars: vec![], // NOT generalised
        cap_vars: vec![],
        ty: Type::Var(unbound),
        constraints: vec![],
    };
    ctx.env.bind("x".to_string(), scheme);

    // detect_unsolved_type_vars must fire T023.
    detect_unsolved_type_vars(&mut ctx);

    let has_t023 = ctx.errors.iter().any(|e| e.code() == "T023");
    assert!(
        has_t023,
        "T023 must fire for unsolved type variable; errors: {:?}",
        ctx.errors
    );

    ctx.env.pop_frame();
}

#[test]
fn scc_dependency_ordering_g_before_f() {
    // g body: 42 (no calls)
    let g_body = Expr::Literal(Literal::IntDec {
        raw: "42".to_string(),
        span: ds(),
    });
    // f body: g(n)
    let f_body = Expr::Call {
        callee: Box::new(Expr::Ident(id("g"))),
        args: vec![Expr::Ident(id("n"))],
        span: ds(),
    };
    let g = make_fn_decl("g", g_body);
    let f = make_fn_decl("f", f_body);
    // g is DeclId(0), f is DeclId(1).
    let decls: Vec<FnDecl> = vec![g, f];
    let graph = build_call_graph(&decls);

    assert_eq!(graph.adj[0], vec![], "g has no deps");
    assert!(graph.adj[1].contains(&DeclId(0)), "f calls g");

    let sccs = tarjan_sccs(&graph);
    assert_eq!(sccs.len(), 2, "2 independent SCCs");

    // g (DeclId 0) must appear in an earlier SCC than f (DeclId 1).
    let pos_g = sccs.iter().position(|s| s.contains(&DeclId(0))).unwrap();
    let pos_f = sccs.iter().position(|s| s.contains(&DeclId(1))).unwrap();
    assert!(pos_g < pos_f, "g's SCC must precede f's SCC in topo order");
}

/// The scheme of a monomorphic function is noted under the id of its body.
#[test]
fn t4_mono_fn_scheme_populated() {
    let mut ctx = InferCtx::new();

    // The body literal lives at [5,7); we stamp that as NodeKind::Expr.
    // The decl span [0,10) is not: schemes are keyed by the span of the body.
    let body_lit_span = Span::new(5, 7);
    let mut map = NodeIdMap::new();
    map.assign(body_lit_span, NodeKind::Expr, 1);
    ctx.node_ids = map;

    ctx.env.push_frame();
    // fn answer = 42
    let decl = make_fn_decl_at(
        "answer",
        0,
        Expr::Literal(Literal::IntDec {
            raw: "42".to_string(),
            span: body_lit_span,
        }),
    );
    let decls: Vec<FnDecl> = vec![decl];
    check(&mut ctx, &decls);
    ctx.env.pop_frame();

    assert_eq!(ctx.schemes_accum.len(), 1, "one top-level scheme expected");
    // Look up by body span (body is a literal → NodeKind::Expr).
    let nid = ctx
        .node_ids
        .get(body_lit_span, NodeKind::Expr)
        .expect("NodeId for body span must exist");
    assert!(
        ctx.schemes_accum.contains_key(&nid),
        "scheme keyed by body NodeId"
    );
}

/// The generalised scheme of a polymorphic function is noted under the id of its
/// body.
#[test]
fn t4_polymorphic_fn_scheme_populated() {
    let mut ctx = InferCtx::new();

    let decl_span = Span::new(0, 10);
    let param_span = Span::new(5, 6);
    let body_ident_span = Span::new(7, 8);
    let mut map = NodeIdMap::new();
    // The body is Expr::Ident at body_ident_span — stamp it as NodeKind::Expr.
    map.assign(body_ident_span, NodeKind::Expr, 2);
    ctx.node_ids = map;

    ctx.env.push_frame();
    // fn id x = x — polymorphic: ∀a. a -> a
    let decl = FnDecl {
        file_private: true,
        caps: CapabilitySet::pure(),
        name: Ident {
            text: "id".to_string(),
            span: decl_span,
        },
        params: vec![Param::Bare(Ident {
            text: "x".to_string(),
            span: param_span,
        })],
        ret: None,
        body: Body::Expr(Expr::Ident(Ident {
            text: "x".to_string(),
            span: body_ident_span,
        })),
        span: decl_span,
    };
    let decls: Vec<FnDecl> = vec![decl];
    check(&mut ctx, &decls);
    ctx.env.pop_frame();

    assert_eq!(ctx.schemes_accum.len(), 1, "one scheme for polymorphic fn");
    // Look up by body span (body is an Ident → NodeKind::Expr).
    let nid = ctx
        .node_ids
        .get(body_ident_span, NodeKind::Expr)
        .expect("NodeId for body ident span");
    let scheme = ctx.schemes_accum.get(&nid).expect("scheme present");
    assert!(
        !scheme.vars.is_empty(),
        "polymorphic fn should have generalised vars"
    );
}

/// What is bound inside a body has no scheme of its own.
#[test]
fn t4_let_bound_local_not_in_schemes() {
    let mut ctx = InferCtx::new();

    // Use span [0, 10) for the decl (matches make_fn_decl_at("foo", 0, ...)).
    let decl_span = Span::new(0, 10);
    let let_span = Span::new(11, 20);
    let val_span = Span::new(21, 23);
    let body_span = Span::new(24, 25);
    let block_span = Span::new(11, 25);
    let mut map = NodeIdMap::new();
    map.assign(decl_span, NodeKind::Expr, 3);
    map.assign(let_span, NodeKind::Expr, 4);
    map.assign(val_span, NodeKind::Expr, 5);
    map.assign(body_span, NodeKind::Expr, 6);
    map.assign(block_span, NodeKind::Block, 7);
    ctx.node_ids = map;

    ctx.env.push_frame();
    // fn foo = let x = 42; x
    let body = Expr::Block(Block {
        stmts: vec![
            Expr::Let {
                pat: Pattern::Var {
                    name: Ident {
                        text: "x".to_string(),
                        span: let_span,
                    },
                    span: let_span,
                },
                value: Box::new(Expr::Literal(Literal::IntDec {
                    raw: "42".to_string(),
                    span: val_span,
                })),
                span: let_span,
            },
            Expr::Ident(Ident {
                text: "x".to_string(),
                span: body_span,
            }),
        ],
        span: block_span,
    });
    let decl = make_fn_decl_at("foo", 0, body);
    let decls: Vec<FnDecl> = vec![decl];
    check(&mut ctx, &decls);
    ctx.env.pop_frame();

    // schemes_accum should only contain the top-level `foo` decl, not `x`.
    assert_eq!(
        ctx.schemes_accum.len(),
        1,
        "only top-level decl scheme; let-bound `x` must not appear: {:?}",
        ctx.schemes_accum
    );
}

#[test]
fn a_cycle_comes_before_what_leads_to_it() {
    // 0 -> 1 -> 2 -> 1, and 3 alone.
    let graph = CallGraph {
        n: 4,
        adj: vec![vec![DeclId(1)], vec![DeclId(2)], vec![DeclId(1)], vec![]],
    };
    let sccs = tarjan_sccs(&graph);
    assert_eq!(sccs.len(), 3);
    let at = |k: usize| sccs.iter().position(|s| s.contains(&DeclId(k)));
    assert_eq!(at(1), at(2));
    assert!(at(1) < at(0));
    assert!(at(3) != at(0) && at(3) != at(1));
}

#[test]
fn a_later_declaration_of_a_name_is_the_one_called() {
    let one = Expr::Literal(Literal::IntDec { raw: "1".to_string(), span: ds() });
    let two = Expr::Literal(Literal::IntDec { raw: "2".to_string(), span: ds() });
    let call = Expr::Call { callee: Box::new(Expr::Ident(id("f"))), args: vec![], span: ds() };
    let decls = vec![make_fn_decl("f", one), make_fn_decl("g", call), make_fn_decl("f", two)];
    let graph = build_call_graph(&decls);
    assert_eq!(graph.adj[1], vec![DeclId(2)]);
}

#[test]
fn callees_are_generalised_before_their_callers() {
    let mut ctx = InferCtx::new();
    ctx.env.push_frame();
    let call = |arg: Expr| Expr::Call {
        callee: Box::new(Expr::Ident(id("identity"))),
        args: vec![arg],
        span: ds(),
    };
    let num = Expr::Literal(Literal::IntDec { raw: "1".to_string(), span: ds() });
    let text = Expr::Literal(Literal::Text { raw: "a".to_string(), span: ds() });
    let decls = vec![
        make_fn_decl("a", call(num)),
        make_fn_decl("b", call(text)),
        make_fn_decl("identity", Expr::Ident(id("n"))),
    ];
    check(&mut ctx, &decls);
    assert!(ctx.errors.is_empty(), "{:?}", ctx.errors);
    let b = builtins();
    let ret = |name: &str| match ctx.env.lookup(name) {
        Some(s) => match ctx.deep_resolve(&s.ty) {
            Type::Fn { ret, .. } => *ret,
            other => other,
        },
        None => Type::Error,
    };
    assert!(matches!(ret("a"), Type::Con(i, _) if i == b.int));
    assert!(matches!(ret("b"), Type::Con(i, _) if i == b.text));
}

#[test]
fn a_body_that_disagrees_with_its_return_type_is_reported() {
    let b = builtins();
    let mut ctx = InferCtx::new();
    ctx.env.push_frame();
    let text = Expr::Literal(Literal::Text { raw: "a".to_string(), span: ds() });
    let mut decl = make_fn_decl("f", text);
    decl.ret = Some(Type::Con(b.int, vec![]));
    check(&mut ctx, &vec![decl]);
    assert!(ctx.errors.iter().any(|e| e.code() == "T001"), "{:?}", ctx.errors);
    assert_eq!(ctx.env.frames.len(), 1);
    assert!(ctx.current_fn_ret.is_none());
}

#[test]
fn polymorphic_recursion_detection_t013() {
    let mut ctx = InferCtx::new();
    ctx.env.push_frame();

    ctx.errors.push(TypeError::PolymorphicRecursion {
        decl: "f".to_string(),
        fix_hint: "annotate it".to_string(),
        recursive_call_span: Span::point(0),
    });

    let has_t013 = ctx.errors.iter().any(|e| e.code() == "T013");
    assert!(has_t013, "T013 must be constructable");

    ctx.env.pop_frame();
}

fn one() -> Expr {
    Expr::Literal(Literal::IntDec { raw: "1".to_string(), span: ds() })
}

fn g_in(body: Expr) {
    let decls = vec![make_fn_decl("g", one()), make_fn_decl("f", body)];
    let graph = build_call_graph(&decls);
    assert_eq!(graph.adj[0], vec![]);
    assert_eq!(graph.adj[1], vec![DeclId(0)]);
}

#[test]
fn a_call_is_found_wherever_it_stands() {
    let g = || Box::new(Expr::Ident(id("g")));
    let given = |v: Option<Expr>, name: &str| vec![FieldInit { name: id(name), value: v, span: ds() }];
    g_in(Expr::Interp {
        parts: vec![
            InterpPart::Text { raw: "x".to_string(), span: ds() },
            InterpPart::Expr { expr: g(), span: ds() },
        ],
        span: ds(),
    });
    g_in(Expr::Record {
        constructor: RecordCtor::Bare(id("User")),
        fields: given(Some(*g()), "age"),
        span: ds(),
    });
    g_in(Expr::RecordLit { fields: given(None, "g"), span: ds() });
    g_in(Expr::With { base: g(), fields: vec![], span: ds() });
    g_in(Expr::With { base: Box::new(one()), fields: given(Some(*g()), "age"), span: ds() });
    g_in(Expr::FieldAccess { base: g(), field: id("age"), span: ds() });
    g_in(Expr::Unary { op: UnOp::Neg, expr: g(), span: ds() });
    g_in(Expr::Send { target: g(), message: id("m"), args: vec![], span: ds() });
    g_in(Expr::Ask { target: Box::new(one()), message: id("m"), args: vec![*g()], span: ds() });
}

#[test]
fn a_call_among_the_arguments_of_a_spawn_is_found() {
    let actor = QualifiedName { segments: vec![id("app"), id("Counter")], span: ds() };
    g_in(Expr::Spawn { actor, args: vec![Expr::Ident(id("g"))], span: ds() });
}

/// The order of the calls and how often they are listed make no difference.
#[test]
fn the_same_calls_give_the_same_components() {
    let a = CallGraph {
        n: 4,
        adj: vec![
            vec![DeclId(1), DeclId(2)],
            vec![DeclId(0)],
            vec![DeclId(3)],
            vec![],
        ],
    };
    let b = CallGraph {
        n: 4,
        adj: vec![
            vec![DeclId(2), DeclId(1), DeclId(2)],
            vec![DeclId(0), DeclId(0)],
            vec![DeclId(3)],
            vec![],
        ],
    };
    let sets = |g: &CallGraph| {
        let mut all: Vec<Vec<usize>> = tarjan_sccs(g)
            .into_iter()
            .map(|c| {
                let mut ids: Vec<usize> = c.into_iter().map(|d| d.0).collect();
                ids.sort();
                ids
            })
            .collect();
        all.sort();
        all
    };
    assert_eq!(sets(&a), sets(&b));
    assert_eq!(sets(&a), vec![vec![0, 1], vec![2], vec![3]]);
}

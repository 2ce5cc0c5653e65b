use ridge_typecheck::ast::{Block, Expr, Ident, LambdaParam, Literal, Pattern};
use ridge_typecheck::ctx::InferCtx;
use ridge_typecheck::instantiate::{
    collect_free_vars, env_free_vars, generalise, instantiate, monoscheme,
};
use ridge_typecheck::pipe_propagate::{check_discarded_result, infer_propagate};
use ridge_typecheck::render::emit_internal;
use ridge_typecheck::types::{
    BuiltinTyCons, CapRow, CapVid, CapabilitySet, ClassId, Constraint, RowTail, Scheme, Span,
    TyConId, TyVid, Type,
};
use ridge_typecheck::unify::unify;

fn builtins() -> BuiltinTyCons {
    BuiltinTyCons {
        int: TyConId(0),
        float: TyConId(1),
        bool: TyConId(2),
        text: TyConId(3),
        unit: TyConId(4),
        list: TyConId(5),
        map: TyConId(6),
        set: TyConId(7),
        option: TyConId(8),
        result: TyConId(9),
        handle: TyConId(10),
        timestamp: TyConId(11),
        error: TyConId(12),
        duration: TyConId(13),
        proc_output: TyConId(14),
        decimal: TyConId(16),
        uuid: TyConId(17),
        bytes: TyConId(18),
        date: TyConId(19),
        time: TyConId(20),
        json_value: TyConId(21),
        sql_value: TyConId(22),
        quote: TyConId(23),
        ret: TyConId(24),
        rows: TyConId(25),
        q_expr: TyConId(26),
    }
}

fn cid(n: u32) -> TyConId {
    TyConId(n)
}

fn ds() -> Span {
    Span::point(0)
}

fn id(t: &str) -> Ident {
    Ident { text: t.to_string(), span: ds() }
}

fn go(ctx: &mut InferCtx, e: &Expr) -> Type {
    let (c, t) = infer(std::mem::replace(ctx, InferCtx::new()), e);
    *ctx = c;
    t
}

fn bind_var(ctx: &mut InferCtx, v: TyVid, t: Type) {
    assert!(ctx.vars.bind(v, &t));
}

/// Enough of inference for the expressions of these tests.
fn infer(ctx: InferCtx, e: &Expr) -> (InferCtx, Type) {
    let b = builtins();
    let mut ctx = ctx;
    match e {
        Expr::Literal(Literal::Text { .. }) => (ctx, Type::Con(b.text, vec![])),
        Expr::Literal(Literal::Bool { .. }) => (ctx, Type::Con(b.bool, vec![])),
        Expr::Literal(Literal::Float { .. }) => (ctx, Type::Con(b.float, vec![])),
        Expr::Literal(_) => (ctx, Type::Con(b.int, vec![])),
        Expr::Unit(_) => (ctx, Type::Con(b.unit, vec![])),
        Expr::Ident(id) => {
            let found = ctx.env.lookup(&id.text).cloned();
            match found {
                Some(s) => {
                    let t = instantiate(&mut ctx, &s);
                    (ctx, t)
                }
                None => {
                    let t = emit_internal(&mut ctx, format!("unbound {}", id.text), id.span);
                    (ctx, t)
                }
            }
        }
        Expr::List { elems, .. } => {
            let elem = Type::Var(ctx.fresh_tyvid());
            for x in elems {
                let (c, t) = infer(ctx, x);
                ctx = c;
                if let Err(e) = unify(&mut ctx.vars, &t, &elem) {
                    ctx.errors.push(e);
                }
            }
            (ctx, Type::Con(b.list, vec![elem]))
        }
        Expr::Paren { inner, .. } => infer(ctx, inner),
        Expr::Lambda { params, body, .. } => {
            ctx.env.push_frame();
            let mut tys = vec![];
            for p in params {
                let v = Type::Var(ctx.fresh_tyvid());
                if let LambdaParam::Pattern(Pattern::Var { name, .. }) = p {
                    ctx.env.bind(name.text.clone(), monoscheme(v.clone()));
                }
                tys.push(v);
            }
            let (c, ret) = infer(ctx, body);
            ctx = c;
            ctx.env.pop_frame();
            let caps = CapRow::Concrete(CapabilitySet::pure());
            (ctx, Type::Fn { params: tys, ret: Box::new(ret), caps })
        }
        Expr::Call { callee, args, .. } => {
            let (c, f) = infer(ctx, callee);
            ctx = c;
            let mut params = vec![];
            for a in args {
                let (c, t) = infer(ctx, a);
                ctx = c;
                params.push(t);
            }
            let ret = Type::Var(ctx.fresh_tyvid());
            let caps = CapRow::Concrete(CapabilitySet::pure());
            let want = Type::Fn { params, ret: Box::new(ret.clone()), caps };
            match unify(&mut ctx.vars, &f, &want) {
                Ok(()) => {
                    let t = ctx.deep_resolve(&ret);
                    (ctx, t)
                }
                Err(e) => {
                    ctx.errors.push(e);
                    (ctx, Type::Error)
                }
            }
        }
        Expr::Block(block) => infer_block(ctx, block),
        Expr::Propagate { inner, span } => infer_propagate(ctx, &b, inner, *span, infer),
        Expr::Let { pat, value, .. } => {
            let (c, t) = infer(ctx, value);
            ctx = c;
            if let Pattern::Var { name, .. } = pat {
                let s = generalise(&ctx, &t);
                ctx.env.bind(name.text.clone(), s);
            }
            (ctx, Type::Con(b.unit, vec![]))
        }
        Expr::Var { name, value, .. } => {
            let (c, t) = infer(ctx, value);
            ctx = c;
            ctx.env.bind(name.text.clone(), monoscheme(t));
            (ctx, Type::Con(b.unit, vec![]))
        }
        _ => {
            let t = emit_internal(&mut ctx, "not covered".to_string(), e.span());
            (ctx, t)
        }
    }
}

/// The type of the last statement; the values of the others are not to be lost.
fn infer_block(ctx: InferCtx, block: &Block) -> (InferCtx, Type) {
    let b = builtins();
    let mut ctx = ctx;
    ctx.env.push_frame();
    let mut last = Type::Con(b.unit, vec![]);
    for (i, stmt) in block.stmts.iter().enumerate() {
        let (c, t) = infer(ctx, stmt);
        ctx = c;
        if i + 1 < block.stmts.len() {
            check_discarded_result(&mut ctx, &b, stmt, &t);
        }
        last = t;
    }
    ctx.env.pop_frame();
    (ctx, last)
}

#[test]
fn instantiate_forall_a_a_to_a_produces_fresh_var() {
    let mut ctx = InferCtx::new();
    let a = TyVid(0);
    let scheme = Scheme {
        vars: vec![a],
        cap_vars: vec![],
        ty: Type::Var(a),
        constraints: vec![],
    };
    let result = instantiate(&mut ctx, &scheme);
    // Should be a Var (the fresh one), not TyVid(0) itself (which is a scheme
    // bound var, not an allocated unification variable).
    assert!(matches!(result, Type::Var(_)));
}

#[test]
fn instantiate_separate_calls_produce_distinct_vars() {
    let mut ctx = InferCtx::new();
    let a = TyVid(0);
    // forall a. a -> a
    let scheme = Scheme {
        vars: vec![a],
        cap_vars: vec![],
        ty: Type::Fn {
            params: vec![Type::Var(a)],
            ret: Box::new(Type::Var(a)),
            caps: CapRow::Concrete(CapabilitySet::pure()),
        },
        constraints: vec![],
    };

    let t1 = instantiate(&mut ctx, &scheme);
    let t2 = instantiate(&mut ctx, &scheme);

    let fv1 = match &t1 {
        Type::Fn { params, .. } => match &params[0] {
            Type::Var(v) => *v,
            other => panic!("expected Var, got {other:?}"),
        },
        other => panic!("expected Fn, got {other:?}"),
    };
    let fv2 = match &t2 {
        Type::Fn { params, .. } => match &params[0] {
            Type::Var(v) => *v,
            other => panic!("expected Var, got {other:?}"),
        },
        other => panic!("expected Fn, got {other:?}"),
    };
    assert_ne!(fv1, fv2, "fresh vars must differ across instantiations");
}

#[test]
fn instantiate_monomorphic_scheme_unchanged() {
    let mut ctx = InferCtx::new();
    let int = Type::Con(cid(0), vec![]);
    let scheme = monoscheme(int);
    let result = instantiate(&mut ctx, &scheme);
    // No vars substituted — result must equal the body.
    assert!(matches!(result, Type::Con(TyConId(0), _)));
}

#[test]
fn instantiate_two_vars_produces_two_distinct_fresh_vars() {
    let mut ctx = InferCtx::new();
    let a = TyVid(0);
    let b = TyVid(1);
    let scheme = Scheme {
        vars: vec![a, b],
        cap_vars: vec![],
        ty: Type::Tuple(vec![Type::Var(a), Type::Var(b)]),
        constraints: vec![],
    };
    let result = instantiate(&mut ctx, &scheme);
    let (fv_a, fv_b) = match result {
        Type::Tuple(elems) => {
            assert_eq!(elems.len(), 2);
            match (&elems[0], &elems[1]) {
                (Type::Var(a2), Type::Var(b2)) => (*a2, *b2),
                other => panic!("expected (Var, Var), got {other:?}"),
            }
        }
        other => panic!("expected Tuple, got {other:?}"),
    };
    assert_ne!(fv_a, fv_b, "two vars must produce two distinct fresh vars");
}

#[test]
fn instantiate_cap_var_produces_fresh_capvid() {
    let mut ctx = InferCtx::new();
    let a = TyVid(0);
    let c = CapVid(0);
    // forall a {c}. fn c a -> a
    let scheme = Scheme {
        vars: vec![a],
        cap_vars: vec![c],
        ty: Type::Fn {
            params: vec![Type::Var(a)],
            ret: Box::new(Type::Var(a)),
            caps: CapRow::Var(c),
        },
        constraints: vec![],
    };
    let result = instantiate(&mut ctx, &scheme);
    match result {
        Type::Fn { caps, .. } => {
            assert!(matches!(caps, CapRow::Var(_)), "cap should be a fresh Var");
        }
        other => panic!("expected Fn, got {other:?}"),
    }
}

#[test]
fn monoscheme_has_empty_vars() {
    let int = Type::Con(cid(0), vec![]);
    let s = monoscheme(int);
    assert!(s.vars.is_empty(), "monoscheme must have no vars");
    assert!(s.cap_vars.is_empty(), "monoscheme must have no cap_vars");
    assert!(matches!(s.ty, Type::Con(TyConId(0), _)));
}

#[test]
fn generalise_concrete_type_returns_monomorphic() {
    let mut ctx = InferCtx::new();
    ctx.env.push_frame();
    let int = Type::Con(cid(0), vec![]);
    let s = generalise(&ctx, &int);
    assert!(s.vars.is_empty(), "concrete type has no vars to generalise");
    assert!(
        s.cap_vars.is_empty(),
        "concrete type has no cap vars to generalise"
    );
    ctx.env.pop_frame();
}

#[test]
fn generalise_excludes_env_free_vars() {
    let mut ctx = InferCtx::new();
    ctx.env.push_frame();

    // Allocate ?a in the unification table.
    let a = ctx.fresh_tyvid();

    // Put ?a into env as a free (unresolved) mono-scheme.
    ctx.env
        .bind("x".to_string(), monoscheme(Type::Var(a)));

    // The body to generalise is ?a -> ?a.
    let body = Type::Fn {
        params: vec![Type::Var(a)],
        ret: Box::new(Type::Var(a)),
        caps: CapRow::Concrete(CapabilitySet::pure()),
    };

    let scheme = generalise(&ctx, &body);
    // ?a is free in env — must NOT be generalised.
    assert!(
        scheme.vars.is_empty(),
        "?a is free in env; vars must be [] but got {:?}",
        scheme.vars
    );
    ctx.env.pop_frame();
}

#[test]
fn generalise_includes_unbound_body_vars() {
    let mut ctx = InferCtx::new();
    ctx.env.push_frame();

    let b = ctx.fresh_tyvid();

    // Body is ?b -> ?b; env is empty (no free vars in env).
    let body = Type::Fn {
        params: vec![Type::Var(b)],
        ret: Box::new(Type::Var(b)),
        caps: CapRow::Concrete(CapabilitySet::pure()),
    };

    let scheme = generalise(&ctx, &body);
    assert!(
        scheme.vars.contains(&b),
        "?b not in env; must be generalised, got {:?}",
        scheme.vars
    );
    ctx.env.pop_frame();
}

#[test]
fn let_polymorphic_id_both_types_succeed() {

    let b = builtins();
    let mut ctx = InferCtx::new();
    ctx.env.push_frame();

    // let id_fn = fn x -> x
    let lambda = Expr::Lambda {
        params: vec![LambdaParam::Pattern(Pattern::Var {
            name: id("x"),
            span: ds(),
        })],
        body: Box::new(Expr::Ident(id("x"))),
        span: ds(),
    };

    // Infer the lambda's type.
    let lambda_ty = go(&mut ctx, &lambda);
    // Generalise it (as a let-binding would).
    let scheme = generalise(&ctx, &lambda_ty);
    // After generalisation, the scheme must have at least 1 var.
    assert!(!scheme.vars.is_empty(), "identity fn must be polymorphic");

    // Bind `id` to the generalised scheme.
    ctx.env.bind("id".to_string(), scheme);

    // Call `id 5` — must produce Int.
    let call_int = Expr::Call {
        callee: Box::new(Expr::Ident(id("id"))),
        args: vec![Expr::Literal(Literal::IntDec {
            raw: "5".to_string(),
            span: ds(),
        })],
        span: ds(),
    };
    let t1 = go(&mut ctx, &call_int);
    assert!(
        ctx.errors.is_empty(),
        "call id 5 must not error; got {:?}",
        ctx.errors
    );
    let r1 = ctx.deep_resolve(&t1);
    assert!(
        matches!(r1, Type::Con(id, _) if id == b.int),
        "id 5 must be Int, got {r1:?}"
    );

    // Call `id "hi"` — must produce Text.
    let call_text = Expr::Call {
        callee: Box::new(Expr::Ident(id("id"))),
        args: vec![Expr::Literal(Literal::Text {
            raw: r#""hi""#.to_string(),
            span: ds(),
        })],
        span: ds(),
    };
    let t2 = go(&mut ctx, &call_text);
    assert!(
        ctx.errors.is_empty(),
        "call id \"hi\" must not error; got {:?}",
        ctx.errors
    );
    let r2 = ctx.deep_resolve(&t2);
    assert!(
        matches!(r2, Type::Con(id, _) if id == b.text),
        "id \"hi\" must be Text, got {r2:?}"
    );

    // Make sure the two results are distinct types (no accidental unification).
    assert_ne!(
        format!("{r1:?}"),
        format!("{r2:?}"),
        "Int and Text must be distinct"
    );

    ctx.env.pop_frame();
}

#[test]
fn let_monomorphic_var_does_not_generalise() {

    let b = builtins();
    let mut ctx = InferCtx::new();
    ctx.env.push_frame();

    // var f = fn x -> x  (monoscheme — no generalisation)
    let lambda = Expr::Lambda {
        params: vec![LambdaParam::Pattern(Pattern::Var { name: id("x"), span: ds() })],
        body: Box::new(Expr::Ident(id("x"))),
        span: ds(),
    };
    let var_ty = go(&mut ctx, &lambda);
    ctx.env.bind("f".to_string(), monoscheme(var_ty));
    assert!(ctx.errors.is_empty(), "var f = fn x -> x must not error");

    // f 5 — first call, unifies ?param with Int. No error expected.
    let call_int = Expr::Call {
        callee: Box::new(Expr::Ident(id("f"))),
        args: vec![Expr::Literal(Literal::IntDec {
            raw: "5".to_string(),
            span: ds(),
        })],
        span: ds(),
    };
    go(&mut ctx, &call_int);
    assert!(ctx.errors.is_empty(), "f 5 must not error on first call");

    // f "hi" — second call, must fail with T001 because f is monomorphic.
    let call_text = Expr::Call {
        callee: Box::new(Expr::Ident(id("f"))),
        args: vec![Expr::Literal(Literal::Text {
            raw: r#""hi""#.to_string(),
            span: ds(),
        })],
        span: ds(),
    };
    go(&mut ctx, &call_text);
    let has_err = ctx.errors.iter().any(|e| e.code() == "T001");
    assert!(
        has_err,
        "f \"hi\" must fail T001 for mono var; errors: {:?}",
        ctx.errors
    );

    ctx.env.pop_frame();
}

#[test]
fn deep_resolve_follows_chain() {

    let b = builtins();
    let mut ctx = InferCtx::new();

    let v0 = ctx.fresh_tyvid();
    let v1 = ctx.fresh_tyvid();
    let int_ty = Type::Con(b.int, vec![]);

    // Bind v0 → v1, v1 → Int.
    bind_var(&mut ctx, v0, Type::Var(v1));
    bind_var(&mut ctx, v1, int_ty);

    let resolved = ctx.deep_resolve(&Type::Var(v0));
    assert!(
        matches!(resolved, Type::Con(id, _) if id == b.int),
        "deep_resolve must follow chain v0→v1→Int, got {resolved:?}"
    );
}

#[test]
fn deep_resolve_fn_type_partially_resolved() {

    let b = builtins();
    let mut ctx = InferCtx::new();

    let va = ctx.fresh_tyvid();
    let vb = ctx.fresh_tyvid();
    let _int_ty = Type::Con(b.int, vec![]);

    // Bind va → Int; vb stays free.
    bind_var(&mut ctx, va, Type::Con(b.int, vec![]));

    let fn_ty = Type::Fn {
        params: vec![Type::Var(va)],
        ret: Box::new(Type::Var(vb)),
        caps: CapRow::Concrete(CapabilitySet::pure()),
    };

    let resolved = ctx.deep_resolve(&fn_ty);
    match resolved {
        Type::Fn { params, ret, .. } => {
            assert!(
                matches!(&params[0], Type::Con(id, _) if *id == b.int),
                "param must resolve to Int, got {:?}",
                params[0]
            );
            // ret is still a free Var.
            assert!(
                matches!(*ret, Type::Var(_)),
                "free ret must stay Var, got {ret:?}"
            );
        }
        other => panic!("expected Fn, got {other:?}"),
    }
}

#[test]
fn collect_free_vars_tuple() {
    let a = TyVid(10);
    let b = TyVid(20);
    let ty = Type::Tuple(vec![
        Type::Var(a),
        Type::Con(TyConId(0), vec![]),
        Type::Var(b),
    ]);
    let (free_ty, free_cap) = collect_free_vars(&ty);
    assert!(free_ty.contains(&a.0), "a must be free");
    assert!(free_ty.contains(&b.0), "b must be free");
    assert_eq!(free_ty.len(), 2, "exactly 2 free ty vars");
    assert!(free_cap.is_empty(), "no free cap vars");
}

#[test]
fn env_free_tyvids_collects_across_frames() {
    let mut ctx = InferCtx::new();

    let v0 = ctx.fresh_tyvid();
    let v1 = ctx.fresh_tyvid();

    ctx.env.push_frame();
    ctx.env
        .bind("a".to_string(), monoscheme(Type::Var(v0)));

    ctx.env.push_frame();
    ctx.env
        .bind("b".to_string(), monoscheme(Type::Var(v1)));

    let (free, _) = env_free_vars(&ctx);
    assert!(free.contains(&v0.0), "v0 must be in env free vars");
    assert!(free.contains(&v1.0), "v1 must be in env free vars");

    ctx.env.pop_frame();
    ctx.env.pop_frame();
}

#[test]
fn collect_free_vars_walks_record_fields() {
    let a = TyVid(7);
    let rec = Type::record(
        vec![
            ("x".to_string(), Type::Var(a)),
            ("y".to_string(), Type::Con(cid(0), vec![])),
        ],
        RowTail::Closed,
    );
    let (free_ty, _) = collect_free_vars(&rec);
    assert!(free_ty.contains(&a.0), "field var `a` must be free");
    assert_eq!(free_ty.len(), 1, "only `a` is free");
}

#[test]
fn generalise_collects_record_field_vars() {
    let mut ctx = InferCtx::new();
    ctx.env.push_frame();
    let a = ctx.fresh_tyvid();
    let rec = Type::record(
        vec![("x".to_string(), Type::Var(a))],
        RowTail::Closed,
    );
    let scheme = generalise(&ctx, &rec);
    assert!(
        scheme.vars.contains(&a),
        "a record field var must be generalised, got {:?}",
        scheme.vars
    );
    ctx.env.pop_frame();
}

#[test]
fn instantiating_defers_the_constraints_under_the_same_renaming() {
    let mut ctx = InferCtx::new();
    let _ = ctx.fresh_tyvid();
    let a = TyVid(0);
    let scheme = Scheme {
        vars: vec![a],
        cap_vars: vec![],
        ty: Type::Var(a),
        constraints: vec![Constraint::single(ClassId(4), a)],
    };
    let t = instantiate(&mut ctx, &scheme);
    assert!(matches!(t, Type::Var(TyVid(1))));
    assert_eq!(ctx.deferred_constraints.len(), 1);
    assert_eq!(ctx.deferred_constraints[0].class, ClassId(4));
    assert_eq!(ctx.deferred_constraints[0].tys, vec![TyVid(1)]);
}

#[test]
fn generalised_variables_come_in_ascending_order() {
    let mut ctx = InferCtx::new();
    ctx.env.push_frame();
    let a = ctx.fresh_tyvid();
    let b = ctx.fresh_tyvid();
    let s = generalise(&ctx, &Type::Tuple(vec![Type::Var(b), Type::Var(a), Type::Var(b)]));
    assert_eq!(s.vars, vec![a, b]);
    assert!(s.constraints.is_empty());
}

#[test]
fn an_instance_of_a_generalisation_has_none_of_its_variables() {
    let mut ctx = InferCtx::new();
    ctx.env.push_frame();
    let a = ctx.fresh_tyvid();
    let s = generalise(&ctx, &Type::Con(cid(5), vec![Type::Var(a)]));
    let t = instantiate(&mut ctx, &s);
    let (free, _) = collect_free_vars(&t);
    assert!(!free.contains(&a.0));
    assert_eq!(free.len(), 1);
}

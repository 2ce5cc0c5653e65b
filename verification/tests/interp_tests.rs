use ridge_typecheck::ast::{Block, Expr, Ident, InterpPart, LambdaParam, Literal, Pattern};
use ridge_typecheck::ctx::InferCtx;
use ridge_typecheck::error::{TypeDesc, TypeError};
use ridge_typecheck::instantiate::{generalise, instantiate, monoscheme};
use ridge_typecheck::interp;
use ridge_typecheck::pipe_propagate::{check_discarded_result, infer_propagate};
use ridge_typecheck::render::emit_internal;
use ridge_typecheck::types::{
    BuiltinTyCons, CapRow, CapabilitySet, RigidId, Span, TyConId, Type,
};
use ridge_typecheck::unify::unify;
use rustc_hash::FxHashSet;

fn builtins() -> BuiltinTyCons {
    BuiltinTyCons {
        int: TyConId(0),
        float: TyConId(1),
        bool: TyConId(2),
        text: TyConId(3),
        unit: TyConId(4),
        list: TyConId(5),
        map: TyConId(6),
        set: TyConId(7),
        option: TyConId(8),
        result: TyConId(9),
        handle: TyConId(10),
        timestamp: TyConId(11),
        error: TyConId(12),
        duration: TyConId(13),
        proc_output: TyConId(14),
        decimal: TyConId(16),
        uuid: TyConId(17),
        bytes: TyConId(18),
        date: TyConId(19),
        time: TyConId(20),
        json_value: TyConId(21),
        sql_value: TyConId(22),
        quote: TyConId(23),
        ret: TyConId(24),
        rows: TyConId(25),
        q_expr: TyConId(26),
    }
}

fn ds() -> Span {
    Span::point(0)
}

/// An interpolation with a single hole.
fn single_hole(expr: Expr) -> Expr {
    Expr::Interp {
        parts: vec![InterpPart::Expr { expr: Box::new(expr), span: ds() }],
        span: ds(),
    }
}

fn ident(name: &str) -> Expr {
    Expr::Ident(Ident { text: name.to_string(), span: ds() })
}

/// Bind `name` in a new frame.
fn bind(ctx: &mut InferCtx, name: &str, ty: Type) {
    ctx.env.push_frame();
    ctx.env.bind(name.to_string(), monoscheme(ty));
}

/// The constructors that the prelude gives a `ToText` instance.
fn prelude_to_text(b: &BuiltinTyCons) -> FxHashSet<u32> {
    let mut set: FxHashSet<u32> = FxHashSet::default();
    for id in [b.int, b.float, b.bool, b.text, b.timestamp] {
        set.insert(id.0);
    }
    set
}

fn infer_interp(
    ctx: &mut InferCtx,
    b: &BuiltinTyCons,
    parts: &Vec<InterpPart>,
    span: Span,
    to_text: Option<&FxHashSet<u32>>,
) -> Type {
    let taken = std::mem::replace(ctx, InferCtx::new());
    let (c, t) = interp::infer_interp(taken, b, parts, span, to_text, infer);
    *ctx = c;
    t
}

fn infer_expr(ctx: &mut InferCtx, e: &Expr) -> Type {
    let (c, t) = infer(std::mem::replace(ctx, InferCtx::new()), e);
    *ctx = c;
    t
}

/// Enough of inference for the expressions of these tests.
fn infer(ctx: InferCtx, e: &Expr) -> (InferCtx, Type) {
    let b = builtins();
    let mut ctx = ctx;
    match e {
        Expr::Literal(Literal::Text { .. }) => (ctx, Type::Con(b.text, vec![])),
        Expr::Literal(Literal::Bool { .. }) => (ctx, Type::Con(b.bool, vec![])),
        Expr::Literal(Literal::Float { .. }) => (ctx, Type::Con(b.float, vec![])),
        Expr::Literal(_) => (ctx, Type::Con(b.int, vec![])),
        Expr::Unit(_) => (ctx, Type::Con(b.unit, vec![])),
        Expr::Ident(id) => {
            let found = ctx.env.lookup(&id.text).cloned();
            match found {
                Some(s) => {
                    let t = instantiate(&mut ctx, &s);
                    (ctx, t)
                }
                None => {
                    let t = emit_internal(&mut ctx, format!("unbound {}", id.text), id.span);
                    (ctx, t)
                }
            }
        }
        Expr::List { elems, .. } => {
            let elem = Type::Var(ctx.fresh_tyvid());
            for x in elems {
                let (c, t) = infer(ctx, x);
                ctx = c;
                if let Err(e) = unify(&mut ctx.vars, &t, &elem) {
                    ctx.errors.push(e);
                }
            }
            (ctx, Type::Con(b.list, vec![elem]))
        }
        Expr::Paren { inner, .. } => infer(ctx, inner),
        Expr::Lambda { params, body, .. } => {
            ctx.env.push_frame();
            let mut tys = vec![];
            for p in params {
                let v = Type::Var(ctx.fresh_tyvid());
                if let LambdaParam::Pattern(Pattern::Var { name, .. }) = p {
                    ctx.env.bind(name.text.clone(), monoscheme(v.clone()));
                }
                tys.push(v);
            }
            let (c, ret) = infer(ctx, body);
            ctx = c;
            ctx.env.pop_frame();
            let caps = CapRow::Concrete(CapabilitySet::pure());
            (ctx, Type::Fn { params: tys, ret: Box::new(ret), caps })
        }
        Expr::Call { callee, args, .. } => {
            let (c, f) = infer(ctx, callee);
            ctx = c;
            let mut params = vec![];
            for a in args {
                let (c, t) = infer(ctx, a);
                ctx = c;
                params.push(t);
            }
            let ret = Type::Var(ctx.fresh_tyvid());
            let caps = CapRow::Concrete(CapabilitySet::pure());
            let want = Type::Fn { params, ret: Box::new(ret.clone()), caps };
            match unify(&mut ctx.vars, &f, &want) {
                Ok(()) => {
                    let t = ctx.deep_resolve(&ret);
                    (ctx, t)
                }
                Err(e) => {
                    ctx.errors.push(e);
                    (ctx, Type::Error)
                }
            }
        }
        Expr::Block(block) => infer_block(ctx, block),
        Expr::Propagate { inner, span } => infer_propagate(ctx, &b, inner, *span, infer),
        Expr::Let { pat, value, .. } => {
            let (c, t) = infer(ctx, value);
            ctx = c;
            if let Pattern::Var { name, .. } = pat {
                let s = generalise(&ctx, &t);
                ctx.env.bind(name.text.clone(), s);
            }
            (ctx, Type::Con(b.unit, vec![]))
        }
        Expr::Var { name, value, .. } => {
            let (c, t) = infer(ctx, value);
            ctx = c;
            ctx.env.bind(name.text.clone(), monoscheme(t));
            (ctx, Type::Con(b.unit, vec![]))
        }
        Expr::Interp { parts, span } => interp::infer_interp(ctx, &b, parts, *span, None, infer),
        _ => {
            let t = emit_internal(&mut ctx, "not covered".to_string(), e.span());
            (ctx, t)
        }
    }
}

/// The type of the last statement; the values of the others are not to be lost.
fn infer_block(ctx: InferCtx, block: &Block) -> (InferCtx, Type) {
    let b = builtins();
    let mut ctx = ctx;
    ctx.env.push_frame();
    let mut last = Type::Con(b.unit, vec![]);
    for (i, stmt) in block.stmts.iter().enumerate() {
        let (c, t) = infer(ctx, stmt);
        ctx = c;
        if i + 1 < block.stmts.len() {
            check_discarded_result(&mut ctx, &b, stmt, &t);
        }
        last = t;
    }
    ctx.env.pop_frame();
    (ctx, last)
}

/// `"x = ${x}"` where x : Int → Text, no errors.
#[test]
fn interp_int_ok() {
    let b = builtins();
    let mut ctx = InferCtx::new();
    bind(&mut ctx, "x", Type::Con(b.int, vec![]));

    let parts = vec![
        InterpPart::Text {
            raw: "x = ".to_string(),
            span: ds(),
        },
        InterpPart::Expr {
            expr: Box::new(ident("x")),
            span: ds(),
        },
    ];
    // Pass None for instance_env: the built-in closed-set fallback applies.
    let ty = infer_interp(&mut ctx, &b, &parts, ds(), None);

    assert!(
        ctx.errors.is_empty(),
        "expected no errors for Int hole; got {:?}",
        ctx.errors
    );
    assert!(
        matches!(ty, Type::Con(id, _) if id == b.text),
        "expected Text result; got {ty:?}"
    );
}

/// `"y = ${y}"` where y : Float → Text, no errors.
#[test]
fn interp_float_ok() {
    let b = builtins();
    let mut ctx = InferCtx::new();
    bind(&mut ctx, "y", Type::Con(b.float, vec![]));

    let parts = vec![InterpPart::Expr {
        expr: Box::new(ident("y")),
        span: ds(),
    }];
    let ty = infer_interp(&mut ctx, &b, &parts, ds(), None);

    assert!(
        ctx.errors.is_empty(),
        "expected no errors for Float hole; got {:?}",
        ctx.errors
    );
    assert!(matches!(ty, Type::Con(id, _) if id == b.text));
}

/// `"flag = ${flag}"` where flag : Bool → Text, no errors.
#[test]
fn interp_bool_ok() {
    let b = builtins();
    let mut ctx = InferCtx::new();
    bind(&mut ctx, "flag", Type::Con(b.bool, vec![]));

    let parts = vec![InterpPart::Expr {
        expr: Box::new(ident("flag")),
        span: ds(),
    }];
    let ty = infer_interp(&mut ctx, &b, &parts, ds(), None);

    assert!(
        ctx.errors.is_empty(),
        "expected no errors for Bool hole; got {:?}",
        ctx.errors
    );
    assert!(matches!(ty, Type::Con(id, _) if id == b.text));
}

/// `"name = ${name}"` where name : Text → Text, no errors.
#[test]
fn interp_text_ok() {
    let b = builtins();
    let mut ctx = InferCtx::new();
    bind(&mut ctx, "name", Type::Con(b.text, vec![]));

    let parts = vec![InterpPart::Expr {
        expr: Box::new(ident("name")),
        span: ds(),
    }];
    let ty = infer_interp(&mut ctx, &b, &parts, ds(), None);

    assert!(
        ctx.errors.is_empty(),
        "expected no errors for Text hole; got {:?}",
        ctx.errors
    );
    assert!(matches!(ty, Type::Con(id, _) if id == b.text));
}

/// `"at = ${ts}"` where ts : Timestamp → Text, no errors.
#[test]
fn interp_timestamp_ok() {
    let b = builtins();
    let mut ctx = InferCtx::new();
    bind(&mut ctx, "ts", Type::Con(b.timestamp, vec![]));

    let parts = vec![InterpPart::Expr {
        expr: Box::new(ident("ts")),
        span: ds(),
    }];
    let ty = infer_interp(&mut ctx, &b, &parts, ds(), None);

    assert!(
        ctx.errors.is_empty(),
        "expected no errors for Timestamp hole; got {:?}",
        ctx.errors
    );
    assert!(matches!(ty, Type::Con(id, _) if id == b.text));
}

/// `"u = ${user}"` where `user : User { name: Text, age: Int }` and
/// no `ToText User` instance is registered → T029 `NoInstance`.
///
/// The registry-path emits T029; the closed-set fallback (no registry) also
/// produces an error because a non-builtin `TyConId` is not in the fallback
/// set.  Both paths are covered here.
#[test]
fn interp_user_record_no_instance_t029() {
    let b = builtins();

    // Intern a minimal User record type.
    let user_id = TyConId(40);

    let mut ctx = InferCtx::new();
    bind(&mut ctx, "user", Type::Con(user_id, vec![]));

    let parts = vec![InterpPart::Expr {
        expr: Box::new(ident("user")),
        span: ds(),
    }];
    // No registry → closed-set fallback: user_id is not a builtin → T029.
    let ty = infer_interp(&mut ctx, &b, &parts, ds(), None);

    assert_eq!(
        ctx.errors.len(),
        1,
        "expected exactly one T029 for user type with no ToText; got {:?}",
        ctx.errors
    );
    assert!(
        matches!(&ctx.errors[0], TypeError::NoInstance { class, .. } if class == "ToText"),
        "expected T029 NoInstance(ToText); got {:?}",
        ctx.errors[0]
    );
    assert_eq!(ctx.errors[0].code(), "T029");
    // Result is still Text (errors don't change the return type).
    assert!(matches!(ty, Type::Con(id, _) if id == b.text));
}

/// with a `ToText User` instance registered, the hole is accepted.
#[test]
fn interp_user_record_with_instance_ok() {

    let b = builtins();

    let user_id = TyConId(40);

    // Build a ToText set that includes user_id.
    let mut set: FxHashSet<u32> = FxHashSet::default();
    set.insert(user_id.0);

    let mut ctx = InferCtx::new();
    bind(&mut ctx, "user", Type::Con(user_id, vec![]));

    let parts = vec![InterpPart::Expr {
        expr: Box::new(ident("user")),
        span: ds(),
    }];
    let ty = infer_interp(&mut ctx, &b, &parts, ds(), Some(&set));

    assert!(
        ctx.errors.is_empty(),
        "expected no errors when ToText instance exists; got {:?}",
        ctx.errors
    );
    assert!(matches!(ty, Type::Con(id, _) if id == b.text));
}

/// `"l = ${l}"` where l : List Int and no `ToText` List instance
/// is registered → T029 (not T012).
#[test]
fn interp_list_no_instance_t029() {
    let b = builtins();
    let mut ctx = InferCtx::new();
    // List Int = Con(list, [Con(int, [])])
    bind(
        &mut ctx,
        "l",
        Type::Con(b.list, vec![Type::Con(b.int, vec![])]),
    );

    let parts = vec![InterpPart::Expr {
        expr: Box::new(ident("l")),
        span: ds(),
    }];
    // No registry: List is not in the built-in closed set → T029.
    let ty = infer_interp(&mut ctx, &b, &parts, ds(), None);

    assert_eq!(
        ctx.errors.len(),
        1,
        "expected exactly one T029 for List; got {:?}",
        ctx.errors
    );
    assert!(
        matches!(&ctx.errors[0], TypeError::NoInstance { class, .. } if class == "ToText"),
        "expected T029 NoInstance(ToText); got {:?}",
        ctx.errors[0]
    );
    assert_eq!(ctx.errors[0].code(), "T029");
    assert!(matches!(ty, Type::Con(id, _) if id == b.text));
}

/// when the hole expression already resolves to `Type::Error`,
/// no `ToText` error must be emitted (absorbing rule).
#[test]
fn interp_error_absorbing() {
    let b = builtins();
    let mut ctx = InferCtx::new();

    // Simulate a hole that types as Error (e.g., an unknown identifier).
    // `Expr::Ident` for an unbound name → T001 + Type::Error.
    let parts = vec![InterpPart::Expr {
        expr: Box::new(ident("unknown_var_xyz")),
        span: ds(),
    }];
    let ty = infer_interp(&mut ctx, &b, &parts, ds(), None);

    // There should be exactly one error (T001 from the unbound ident),
    // and it must NOT be a T029 NoInstance.
    let no_instance_count = ctx
        .errors
        .iter()
        .filter(|e| matches!(e, TypeError::NoInstance { .. }))
        .count();
    assert_eq!(
        no_instance_count, 0,
        "no ToText error must fire when sub-expr is Type::Error; errors: {:?}",
        ctx.errors
    );
    // Result is still Text.
    assert!(matches!(ty, Type::Con(id, _) if id == b.text));
}

/// `$"hello world"` with only a `Text` segment (no `${…}` holes)
/// types as `Text` with no errors.
#[test]
fn interp_no_holes_just_text() {
    let b = builtins();
    let mut ctx = InferCtx::new();

    let parts = vec![InterpPart::Text {
        raw: "hello world".to_string(),
        span: ds(),
    }];
    let ty = infer_interp(&mut ctx, &b, &parts, ds(), None);

    assert!(
        ctx.errors.is_empty(),
        "expected no errors; got {:?}",
        ctx.errors
    );
    assert!(matches!(ty, Type::Con(id, _) if id == b.text));
}

/// `"a=${a}, b=${b}"` where a : Int, b : Float → Text, no errors.
#[test]
fn interp_multiple_parts_ok() {
    let b = builtins();
    let mut ctx = InferCtx::new();
    ctx.env.push_frame();
    ctx.env
        .bind("a".to_string(), monoscheme(Type::Con(b.int, vec![])));
    ctx.env.bind(
        "b_var".to_string(),
        monoscheme(Type::Con(b.float, vec![])),
    );

    let parts = vec![
        InterpPart::Text {
            raw: "a=".to_string(),
            span: ds(),
        },
        InterpPart::Expr {
            expr: Box::new(ident("a")),
            span: ds(),
        },
        InterpPart::Text {
            raw: ", b=".to_string(),
            span: ds(),
        },
        InterpPart::Expr {
            expr: Box::new(ident("b_var")),
            span: ds(),
        },
    ];
    let ty = infer_interp(&mut ctx, &b, &parts, ds(), None);

    assert!(
        ctx.errors.is_empty(),
        "expected no errors for multi-part interp; got {:?}",
        ctx.errors
    );
    assert!(matches!(ty, Type::Con(id, _) if id == b.text));
}

/// verify that `infer_expr` dispatches into `infer_interp`
/// correctly: an `Expr::Interp` with a single Int hole types as Text.
#[test]
fn infer_expr_dispatches_interp() {
    let b = builtins();
    let mut ctx = InferCtx::new();
    bind(&mut ctx, "n", Type::Con(b.int, vec![]));

    let expr = single_hole(ident("n"));
    let ty = infer_expr(&mut ctx, &expr);

    assert!(
        ctx.errors.is_empty(),
        "expected no errors from infer_expr dispatch; got {:?}",
        ctx.errors
    );
    assert!(
        matches!(ty, Type::Con(id, _) if id == b.text),
        "expected Text; got {ty:?}"
    );
    // Critically, no T999 InternalTypeError should be present.
    let t999_count = ctx
        .errors
        .iter()
        .filter(|e| matches!(e, TypeError::InternalTypeError { .. }))
        .count();
    assert_eq!(t999_count, 0, "T999 must not fire");
}

/// when a `ToText` set built from the prelude registry is provided,
/// builtins are accepted through the O(1) set membership check.
#[test]
fn interp_builtins_accepted_via_registry() {

    let b = builtins();
    let set = prelude_to_text(&b);

    let mut ctx = InferCtx::new();
    bind(&mut ctx, "n", Type::Con(b.int, vec![]));

    let parts = vec![InterpPart::Expr {
        expr: Box::new(ident("n")),
        span: ds(),
    }];
    let ty = infer_interp(&mut ctx, &b, &parts, ds(), Some(&set));

    assert!(
        ctx.errors.is_empty(),
        "builtins must be accepted via the ToText set; got {:?}",
        ctx.errors
    );
    assert!(matches!(ty, Type::Con(id, _) if id == b.text));
}

/// with a full prelude `ToText` set, a user type that has no
/// registered `ToText` instance yields T029 (not T012).
#[test]
fn interp_missing_instance_with_registry_t029() {

    let b = builtins();
    let user_id = TyConId(40);

    // Widget has no ToText instance in the registry.
    let set = prelude_to_text(&b);

    let mut ctx = InferCtx::new();
    bind(&mut ctx, "w", Type::Con(user_id, vec![]));

    let parts = vec![InterpPart::Expr {
        expr: Box::new(ident("w")),
        span: ds(),
    }];
    let ty = infer_interp(&mut ctx, &b, &parts, ds(), Some(&set));

    assert_eq!(ctx.errors.len(), 1, "expected T029; got {:?}", ctx.errors);
    assert_eq!(ctx.errors[0].code(), "T029");
    assert!(matches!(ty, Type::Con(id, _) if id == b.text));
}

#[test]
fn every_hole_is_checked() {
    let b = builtins();
    let mut ctx = InferCtx::new();
    bind(&mut ctx, "l", Type::Con(b.list, vec![Type::Con(b.int, vec![])]));
    bind(&mut ctx, "f", Type::Tuple(vec![]));
    let parts = vec![
        InterpPart::Expr { expr: Box::new(ident("l")), span: Span::new(1, 2) },
        InterpPart::Expr { expr: Box::new(ident("f")), span: Span::new(5, 6) },
    ];
    let ty = infer_interp(&mut ctx, &b, &parts, ds(), None);
    assert!(matches!(ty, Type::Con(id, _) if id == b.text));
    assert_eq!(ctx.errors.len(), 2);
    assert_eq!(ctx.errors[0].code(), "T029");
    assert_eq!(ctx.errors[1].code(), "T029");
}

#[test]
fn a_hole_of_ordering_is_accepted_without_a_set() {
    let b = builtins();
    let mut ctx = InferCtx::new();
    bind(&mut ctx, "o", Type::Con(TyConId(15), vec![]));
    let parts = vec![InterpPart::Expr { expr: Box::new(ident("o")), span: ds() }];
    let _ = infer_interp(&mut ctx, &b, &parts, ds(), None);
    assert!(ctx.errors.is_empty());
}

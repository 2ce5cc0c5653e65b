use ridge_typecheck::ast::{Block, Expr, Ident, LambdaParam, Literal, Pattern};
use ridge_typecheck::ctx::InferCtx;
use ridge_typecheck::error::{Severity, TypeError};
use ridge_typecheck::instantiate::{generalise, instantiate, monoscheme};
use ridge_typecheck::pipe_propagate::{
    check_discarded_result, infer_pipe, infer_propagate, infer_try, is_binding_stmt, is_unit_type,
    propagate_from,
};
use ridge_typecheck::render::emit_internal;
use ridge_typecheck::types::{BuiltinTyCons, CapRow, CapabilitySet, Span, TyConId, Type};
use ridge_typecheck::unify::unify;

fn builtins() -> BuiltinTyCons {
    BuiltinTyCons {
        int: TyConId(0),
        float: TyConId(1),
        bool: TyConId(2),
        text: TyConId(3),
        unit: TyConId(4),
        list: TyConId(5),
        map: TyConId(6),
        set: TyConId(7),
        option: TyConId(8),
        result: TyConId(9),
        handle: TyConId(10),
        timestamp: TyConId(11),
        error: TyConId(12),
        duration: TyConId(13),
        proc_output: TyConId(14),
        decimal: TyConId(16),
        uuid: TyConId(17),
        bytes: TyConId(18),
        date: TyConId(19),
        time: TyConId(20),
        json_value: TyConId(21),
        sql_value: TyConId(22),
        quote: TyConId(23),
        ret: TyConId(24),
        rows: TyConId(25),
        q_expr: TyConId(26),
    }
}

fn ds() -> Span {
    Span::point(0)
}

fn make_ident(text: &str) -> Ident {
    Ident { text: text.to_string(), span: ds() }
}

fn int_lit(n: &str) -> Expr {
    Expr::Literal(Literal::IntDec { raw: n.to_string(), span: ds() })
}

fn text_lit(s: &str) -> Expr {
    Expr::Literal(Literal::Text { raw: s.to_string(), span: ds() })
}

fn ident(name: &str) -> Expr {
    Expr::Ident(make_ident(name))
}

fn bind(ctx: &mut InferCtx, name: &str, ty: Type) {
    if ctx.env.frames.is_empty() {
        ctx.env.push_frame();
    }
    ctx.env.bind(name.to_string(), monoscheme(ty));
}

fn make_fn_ty(_b: &BuiltinTyCons, params: Vec<Type>, ret: Type) -> Type {
    Type::Fn { params, ret: Box::new(ret), caps: CapRow::Concrete(CapabilitySet::pure()) }
}

fn result_ty(b: &BuiltinTyCons, a: Type, e: Type) -> Type {
    Type::Con(b.result, vec![a, e])
}

fn option_ty(b: &BuiltinTyCons, a: Type) -> Type {
    Type::Con(b.option, vec![a])
}

fn int_ty(b: &BuiltinTyCons) -> Type {
    Type::Con(b.int, vec![])
}

fn text_ty(b: &BuiltinTyCons) -> Type {
    Type::Con(b.text, vec![])
}

fn unit_ty(b: &BuiltinTyCons) -> Type {
    Type::Con(b.unit, vec![])
}

fn pipe(ctx: &mut InferCtx, lhs: Expr, rhs: Expr) -> Type {
    let taken = std::mem::replace(ctx, InferCtx::new());
    let (c, t) = infer_pipe(taken, lhs, rhs, ds(), infer);
    *ctx = c;
    t
}

fn propagate(ctx: &mut InferCtx, inner: &Expr) -> Type {
    let taken = std::mem::replace(ctx, InferCtx::new());
    let (c, t) = infer_propagate(taken, &builtins(), inner, ds(), infer);
    *ctx = c;
    t
}

fn try_block(ctx: &mut InferCtx, block: &Block) -> Type {
    let taken = std::mem::replace(ctx, InferCtx::new());
    let (c, t) = infer_try(taken, &builtins(), block, ds(), infer_block);
    *ctx = c;
    t
}

fn block_type(ctx: &mut InferCtx, block: &Block) -> Type {
    let (c, t) = infer_block(std::mem::replace(ctx, InferCtx::new()), block);
    *ctx = c;
    t
}

/// Enough of inference for the expressions of these tests.
fn infer(ctx: InferCtx, e: &Expr) -> (InferCtx, Type) {
    let b = builtins();
    let mut ctx = ctx;
    match e {
        Expr::Literal(Literal::Text { .. }) => (ctx, Type::Con(b.text, vec![])),
        Expr::Literal(Literal::Bool { .. }) => (ctx, Type::Con(b.bool, vec![])),
        Expr::Literal(Literal::Float { .. }) => (ctx, Type::Con(b.float, vec![])),
        Expr::Literal(_) => (ctx, Type::Con(b.int, vec![])),
        Expr::Unit(_) => (ctx, Type::Con(b.unit, vec![])),
        Expr::Ident(id) => {
            let found = ctx.env.lookup(&id.text).cloned();
            match found {
                Some(s) => {
                    let t = instantiate(&mut ctx, &s);
                    (ctx, t)
                }
                None => {
                    let t = emit_internal(&mut ctx, format!("unbound {}", id.text), id.span);
                    (ctx, t)
                }
            }
        }
        Expr::List { elems, .. } => {
            let elem = Type::Var(ctx.fresh_tyvid());
            for x in elems {
                let (c, t) = infer(ctx, x);
                ctx = c;
                if let Err(e) = unify(&mut ctx.vars, &t, &elem) {
                    ctx.errors.push(e);
                }
            }
            (ctx, Type::Con(b.list, vec![elem]))
        }
        Expr::Paren { inner, .. } => infer(ctx, inner),
        Expr::Lambda { params, body, .. } => {
            ctx.env.push_frame();
            let mut tys = vec![];
            for p in params {
                let v = Type::Var(ctx.fresh_tyvid());
                if let LambdaParam::Pattern(Pattern::Var { name, .. }) = p {
                    ctx.env.bind(name.text.clone(), monoscheme(v.clone()));
                }
                tys.push(v);
            }
            let (c, ret) = infer(ctx, body);
            ctx = c;
            ctx.env.pop_frame();
            let caps = CapRow::Concrete(CapabilitySet::pure());
            (ctx, Type::Fn { params: tys, ret: Box::new(ret), caps })
        }
        Expr::Call { callee, args, .. } => {
            let (c, f) = infer(ctx, callee);
            ctx = c;
            let mut params = vec![];
            for a in args {
                let (c, t) = infer(ctx, a);
                ctx = c;
                params.push(t);
            }
            let ret = Type::Var(ctx.fresh_tyvid());
            let caps = CapRow::Concrete(CapabilitySet::pure());
            let want = Type::Fn { params, ret: Box::new(ret.clone()), caps };
            match unify(&mut ctx.vars, &f, &want) {
                Ok(()) => {
                    let t = ctx.deep_resolve(&ret);
                    (ctx, t)
                }
                Err(e) => {
                    ctx.errors.push(e);
                    (ctx, Type::Error)
                }
            }
        }
        Expr::Block(block) => infer_block(ctx, block),
        Expr::Propagate { inner, span } => infer_propagate(ctx, &b, inner, *span, infer),
        Expr::Let { pat, value, .. } => {
            let (c, t) = infer(ctx, value);
            ctx = c;
            if let Pattern::Var { name, .. } = pat {
                let s = generalise(&ctx, &t);
                ctx.env.bind(name.text.clone(), s);
            }
            (ctx, Type::Con(b.unit, vec![]))
        }
        Expr::Var { name, value, .. } => {
            let (c, t) = infer(ctx, value);
            ctx = c;
            ctx.env.bind(name.text.clone(), monoscheme(t));
            (ctx, Type::Con(b.unit, vec![]))
        }
        _ => {
            let t = emit_internal(&mut ctx, "not covered".to_string(), e.span());
            (ctx, t)
        }
    }
}

/// The type of the last statement; the values of the others are not to be lost.
fn infer_block(ctx: InferCtx, block: &Block) -> (InferCtx, Type) {
    let b = builtins();
    let mut ctx = ctx;
    ctx.env.push_frame();
    let mut last = Type::Con(b.unit, vec![]);
    for (i, stmt) in block.stmts.iter().enumerate() {
        let (c, t) = infer(ctx, stmt);
        ctx = c;
        if i + 1 < block.stmts.len() {
            check_discarded_result(&mut ctx, &b, stmt, &t);
        }
        last = t;
    }
    ctx.env.pop_frame();
    (ctx, last)
}

/// `[1, 2, 3] |> List.length` desugars to `List.length [1, 2, 3]` → `Int`.
///
/// We simulate this by binding `listLength` in the env as `List Int -> Int`
/// and piping `[1,2,3]` into it.
#[test]
fn pipe_basic() {
    let b = builtins();
    let mut ctx = InferCtx::new();

    let list_int = Type::Con(b.list, vec![int_ty(&b)]);
    let length_fn = make_fn_ty(&b, vec![list_int], int_ty(&b));
    bind(&mut ctx, "listLength", length_fn);

    let lhs = Expr::List {
        elems: vec![int_lit("1"), int_lit("2"), int_lit("3")],
        span: ds(),
    };
    let rhs = ident("listLength");

    let ty = pipe(&mut ctx, lhs, rhs);
    assert!(
        matches!(ty, Type::Con(id, _) if id == b.int),
        "expected Int, got {ty:?}"
    );
    assert!(ctx.errors.is_empty(), "unexpected errors: {:?}", ctx.errors);
}

/// `[1,2,3] |> listMap double |> listLength` → `Int`.
///
/// We use a simplified monomorphic model:
/// - `listMap : (Int -> Int) -> List Int -> List Int` (curried 2-arg form).
/// - First pipe: `listMap double [1,2,3]` → `List Int`.
/// - Second pipe: `listLength (List Int)` → `Int`.
///
/// Ridge's Call nodes are flat multi-arg; `listMap double` is a `Call` that
/// partially applies, yielding a fn that is then piped with the list.
/// For testing purposes we model the whole pipe chain in two steps using
/// intermediate name bindings.
#[test]
fn pipe_chain() {
    let b = builtins();
    let mut ctx = InferCtx::new();

    let list_int = Type::Con(b.list, vec![int_ty(&b)]);

    // double : Int -> Int
    let double_fn = make_fn_ty(&b, vec![int_ty(&b)], int_ty(&b));
    bind(&mut ctx, "double", double_fn);

    // listMap : (Int -> Int, List Int) -> List Int  (flat 2-arg, not curried)
    // We use a 2-param flat fn to keep Call inference simple.
    let map_fn = make_fn_ty(
        &b,
        vec![
            make_fn_ty(&b, vec![int_ty(&b)], int_ty(&b)),
            list_int.clone(),
        ],
        list_int.clone(),
    );
    bind(&mut ctx, "listMap", map_fn);

    // listLength : List Int -> Int
    let length_fn = make_fn_ty(&b, vec![list_int], int_ty(&b));
    bind(&mut ctx, "listLength", length_fn);

    let list_expr = Expr::List {
        elems: vec![int_lit("1"), int_lit("2"), int_lit("3")],
        span: ds(),
    };

    // Step 1: `list_expr |> listMap double`
    // Pipe desugars to: listMap double list_expr  (lhs appended as last arg).
    let rhs1 = Expr::Call {
        callee: Box::new(ident("listMap")),
        args: vec![ident("double")],
        span: ds(),
    };
    let step1 = pipe(&mut ctx, list_expr, rhs1);
    // step1 should be List Int
    let step1_resolved = ctx.deep_resolve(&step1);
    assert!(
        matches!(&step1_resolved, Type::Con(id, _) if *id == b.list),
        "step1 should be List _, got {step1_resolved:?}; errors: {:?}",
        ctx.errors
    );

    // Step 2: bind the intermediate result and pipe into listLength.
    bind(&mut ctx, "__step1", step1_resolved);

    let ty = pipe(&mut ctx, ident("__step1"), ident("listLength"));
    let ty_resolved = ctx.deep_resolve(&ty);
    assert!(
        matches!(ty_resolved, Type::Con(id, _) if id == b.int),
        "expected Int from chain, got {ty_resolved:?}; errors: {:?}",
        ctx.errors
    );
    assert!(ctx.errors.is_empty(), "unexpected errors: {:?}", ctx.errors);
}

/// A fn returning `Result Text Text`, body `readFile "a" ?` → `Text`.
#[test]
fn propagate_in_result_fn() {
    let b = builtins();
    let mut ctx = InferCtx::new();

    // Set enclosing fn return type to Result Text Text.
    ctx.current_fn_ret = Some(result_ty(&b, text_ty(&b), text_ty(&b)));

    // readFile : Text -> Result Text Text
    let read_file_fn = make_fn_ty(
        &b,
        vec![text_ty(&b)],
        result_ty(&b, text_ty(&b), text_ty(&b)),
    );
    bind(&mut ctx, "readFile", read_file_fn);

    let inner = Expr::Call {
        callee: Box::new(ident("readFile")),
        args: vec![text_lit("a")],
        span: ds(),
    };

    let ty = propagate(&mut ctx, &inner);
    // The `?` unwraps Result Text Text → Text.
    assert!(
        matches!(ty, Type::Con(id, _) if id == b.text),
        "expected Text, got {ty:?}"
    );
    assert!(ctx.errors.is_empty(), "unexpected errors: {:?}", ctx.errors);
}

/// A fn returning `Option Int`, body `lookup "key" ?` → `Int`.
#[test]
fn propagate_in_option_fn() {
    let b = builtins();
    let mut ctx = InferCtx::new();

    // Set enclosing fn return type to Option Int.
    ctx.current_fn_ret = Some(option_ty(&b, int_ty(&b)));

    // lookup : Text -> Option Int
    let lookup_fn = make_fn_ty(&b, vec![text_ty(&b)], option_ty(&b, int_ty(&b)));
    bind(&mut ctx, "lookup", lookup_fn);

    let inner = Expr::Call {
        callee: Box::new(ident("lookup")),
        args: vec![text_lit("key")],
        span: ds(),
    };

    let ty = propagate(&mut ctx, &inner);
    // The `?` unwraps Option Int → Int.
    assert!(
        matches!(ty, Type::Con(id, _) if id == b.int),
        "expected Int, got {ty:?}"
    );
    assert!(ctx.errors.is_empty(), "unexpected errors: {:?}", ctx.errors);
}

/// Fn returns `Result Text Text`, body `(5 : Int) ?` → T001 (Int does not
/// unify with `Result Text Text`).
#[test]
fn propagate_inner_type_mismatch_t001() {
    let b = builtins();
    let mut ctx = InferCtx::new();

    // Context: fn returning Result Text Text.
    ctx.current_fn_ret = Some(result_ty(&b, text_ty(&b), text_ty(&b)));

    // Inner expression is just `5 : Int`.
    let inner = int_lit("5");

    let ty = propagate(&mut ctx, &inner);
    assert!(
        matches!(ty, Type::Error),
        "expected Error for type mismatch, got {ty:?}"
    );
    // A T001 TypeMismatch should have been emitted (Int ≠ Result _ _).
    assert!(!ctx.errors.is_empty(), "expected at least one error");
}

/// `try { 5 }` → `Result Int _` (Ok payload = Int).
#[test]
fn try_block_basic() {
    let b = builtins();
    let mut ctx = InferCtx::new();

    let block = Block {
        stmts: vec![int_lit("5")],
        span: ds(),
    };

    let ty = try_block(&mut ctx, &block);
    // Should be Result Int _ .
    match &ty {
        Type::Con(id, args) if *id == b.result => {
            let ok_ty = ctx.deep_resolve(&args[0]);
            assert!(
                matches!(ok_ty, Type::Con(i, _) if i == b.int),
                "expected Ok payload Int, got {ok_ty:?}"
            );
        }
        other => panic!("expected Result _, got {other:?}"),
    }
    assert!(ctx.errors.is_empty(), "unexpected errors: {:?}", ctx.errors);
}

/// `try { let x = readFile "a" ?; x }` → `Result Text _`.
///
/// Inside the try block, `readFile "a" ?` should unwrap to `Text` and
/// the try expression's Ok payload should be `Text`.
#[test]
fn try_block_with_propagate() {
    let b = builtins();
    let mut ctx = InferCtx::new();

    // readFile : Text -> Result Text Text
    let read_file_fn = make_fn_ty(
        &b,
        vec![text_ty(&b)],
        result_ty(&b, text_ty(&b), text_ty(&b)),
    );
    bind(&mut ctx, "readFile", read_file_fn);

    // Simulate: let x = readFile "a" ?; x
    // We build the block manually.
    // let x = readFile "a" ?  — a Let binding
    let read_call = Expr::Call {
        callee: Box::new(ident("readFile")),
        args: vec![text_lit("a")],
        span: ds(),
    };
    let propagate_expr = Expr::Propagate {
        inner: Box::new(read_call),
        span: ds(),
    };
    let let_stmt = Expr::Let {
        pat: Pattern::Var {
            name: make_ident("x"),
            span: ds(),
        },
        value: Box::new(propagate_expr),
        span: ds(),
    };
    let return_x = ident("x");

    let block = Block {
        stmts: vec![let_stmt, return_x],
        span: ds(),
    };

    let ty = try_block(&mut ctx, &block);
    match &ty {
        Type::Con(id, args) if *id == b.result => {
            let ok_ty = ctx.deep_resolve(&args[0]);
            assert!(
                matches!(ok_ty, Type::Con(i, _) if i == b.text),
                "expected Ok payload Text, got {ok_ty:?}"
            );
        }
        other => panic!("expected Result _, got {other:?}"),
    }
    assert!(ctx.errors.is_empty(), "unexpected errors: {:?}", ctx.errors);
}

/// `try { 42 }` at module top-level (no `current_fn_ret`) — should type
/// correctly as `Result Int _` without needing `current_fn_ret`.
#[test]
fn try_block_outside_fn() {
    let b = builtins();
    let mut ctx = InferCtx::new();
    // No current_fn_ret set — simulates module-level expression.
    assert!(ctx.current_fn_ret.is_none());

    let block = Block {
        stmts: vec![int_lit("42")],
        span: ds(),
    };

    let ty = try_block(&mut ctx, &block);
    assert!(
        matches!(&ty, Type::Con(id, _) if *id == b.result),
        "expected Result _, got {ty:?}"
    );
    assert!(ctx.errors.is_empty(), "unexpected errors: {:?}", ctx.errors);
}

/// A block `{ readFile "a"; 1 }` — the readFile result is discarded → T022.
#[test]
fn discarded_result_t022_basic() {
    let b = builtins();
    let mut ctx = InferCtx::new();

    // readFile : Text -> Result Text Text
    let read_file_fn = make_fn_ty(
        &b,
        vec![text_ty(&b)],
        result_ty(&b, text_ty(&b), text_ty(&b)),
    );
    bind(&mut ctx, "readFile", read_file_fn);

    let block = Block {
        stmts: vec![
            Expr::Call {
                callee: Box::new(ident("readFile")),
                args: vec![text_lit("a")],
                span: ds(),
            },
            int_lit("1"),
        ],
        span: ds(),
    };

    let ty = block_type(&mut ctx, &block);
    // Block value is Int.
    assert!(
        matches!(ty, Type::Con(id, _) if id == b.int),
        "expected Int, got {ty:?}"
    );
    // T022 should have fired for the discarded Result.
    let has_t022 = ctx.errors.iter().any(|e| e.code() == "T022");
    assert!(has_t022, "expected T022, got: {:?}", ctx.errors);
}

/// `{ print "hi"; 1 }` — print returns Unit, no T022.
#[test]
fn discarded_unit_no_warning() {
    let b = builtins();
    let mut ctx = InferCtx::new();

    // print : Text -> Unit
    let print_fn = make_fn_ty(&b, vec![text_ty(&b)], unit_ty(&b));
    bind(&mut ctx, "print", print_fn);

    let block = Block {
        stmts: vec![
            Expr::Call {
                callee: Box::new(ident("print")),
                args: vec![text_lit("hi")],
                span: ds(),
            },
            int_lit("1"),
        ],
        span: ds(),
    };

    let ty = block_type(&mut ctx, &block);
    assert!(
        matches!(ty, Type::Con(id, _) if id == b.int),
        "expected Int, got {ty:?}"
    );
    // No T022 — print returns Unit.
    let has_t022 = ctx.errors.iter().any(|e| e.code() == "T022");
    assert!(!has_t022, "unexpected T022: {:?}", ctx.errors);
}

/// `{ (actor ! msg); 1 }` — Send returns Unit, no T022.
///
/// A function that returns Unit stands for the send.
#[test]
fn discarded_send_no_warning() {
    let b = builtins();
    let mut ctx = InferCtx::new();

    // Simulate Send result: a fn returning Unit.
    let send_like_fn = make_fn_ty(&b, vec![], unit_ty(&b));
    bind(&mut ctx, "sendAction", send_like_fn);

    let block = Block {
        stmts: vec![
            Expr::Call {
                callee: Box::new(ident("sendAction")),
                args: vec![],
                span: ds(),
            },
            int_lit("1"),
        ],
        span: ds(),
    };

    let ty = block_type(&mut ctx, &block);
    assert!(
        matches!(ty, Type::Con(id, _) if id == b.int),
        "expected Int, got {ty:?}"
    );
    let has_t022 = ctx.errors.iter().any(|e| e.code() == "T022");
    assert!(!has_t022, "unexpected T022: {:?}", ctx.errors);
}

/// A fn returning `Int` whose body holds `something ?`.
#[test]
fn propagate_outside_result_or_option() {
    let b = builtins();
    let mut ctx = InferCtx::new();
    ctx.current_fn_ret = Some(int_ty(&b));
    let something_fn = make_fn_ty(&b, vec![], result_ty(&b, int_ty(&b), text_ty(&b)));
    bind(&mut ctx, "something", something_fn);
    let inner = Expr::Call { callee: Box::new(ident("something")), args: vec![], span: ds() };
    let ty = propagate(&mut ctx, &inner);
    assert!(matches!(ty, Type::Error));
    assert_eq!(ctx.errors.len(), 1);
    assert!(matches!(&ctx.errors[0], TypeError::PropagateOutsideResultOrOption { .. }));
    assert_eq!(ctx.errors[0].code(), "T058");
}

#[test]
fn propagate_with_nothing_around_it() {
    let b = builtins();
    let mut ctx = InferCtx::new();
    let ty = propagate_from(&mut ctx, &b, &option_ty(&b, int_ty(&b)), ds());
    assert!(matches!(ty, Type::Error));
    assert_eq!(ctx.errors[0].code(), "T058");
}

#[test]
fn propagating_takes_the_success_type() {
    let b = builtins();
    let mut ctx = InferCtx::new();
    ctx.current_fn_ret = Some(result_ty(&b, int_ty(&b), text_ty(&b)));
    let ty = propagate_from(&mut ctx, &b, &result_ty(&b, unit_ty(&b), text_ty(&b)), ds());
    assert!(is_unit_type(&ctx.deep_resolve(&ty), b.unit));
    assert!(ctx.errors.is_empty());
}

#[test]
fn the_try_target_hides_the_function_and_is_put_back() {
    let b = builtins();
    let mut ctx = InferCtx::new();
    ctx.current_fn_ret = Some(int_ty(&b));
    ctx.current_propagate_target = Some(option_ty(&b, int_ty(&b)));
    let block = Block { stmts: vec![int_lit("5")], span: ds() };
    let _ = try_block(&mut ctx, &block);
    assert!(matches!(&ctx.current_propagate_target, Some(Type::Con(id, _)) if *id == b.option));
}

#[test]
fn pipe_appends_to_a_call() {
    let b = builtins();
    let mut ctx = InferCtx::new();
    let f = make_fn_ty(&b, vec![text_ty(&b), int_ty(&b)], text_ty(&b));
    bind(&mut ctx, "pad", f);
    let rhs = Expr::Call {
        callee: Box::new(ident("pad")),
        args: vec![text_lit("x")],
        span: ds(),
    };
    let ty = pipe(&mut ctx, int_lit("3"), rhs);
    assert!(matches!(ctx.deep_resolve(&ty), Type::Con(id, _) if id == b.text));
    assert!(ctx.errors.is_empty(), "{:?}", ctx.errors);
}

#[test]
fn binding_statements_discard_nothing() {
    let b = builtins();
    let mut ctx = InferCtx::new();
    let stmt = Expr::Let {
        pat: Pattern::Other { span: ds() },
        value: Box::new(int_lit("1")),
        span: ds(),
    };
    assert!(is_binding_stmt(&stmt));
    assert!(!is_binding_stmt(&int_lit("1")));
    check_discarded_result(&mut ctx, &b, &stmt, &int_ty(&b));
    assert!(ctx.errors.is_empty());
    check_discarded_result(&mut ctx, &b, &int_lit("1"), &Type::Error);
    assert!(ctx.errors.is_empty());
    check_discarded_result(&mut ctx, &b, &int_lit("1"), &option_ty(&b, int_ty(&b)));
    assert_eq!(ctx.errors[0].code(), "T022");
    assert!(matches!(ctx.errors[0].severity(), Severity::Warning));
}

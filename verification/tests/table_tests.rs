use ridge_typecheck::ctx::{Env, InferCtx, NodeIdMap, NodeKind};
use ridge_typecheck::instantiate::monoscheme;
use ridge_typecheck::table::{occurs_in, replace_var, VarTable};
use ridge_typecheck::types::{
    BuiltinTyCons, CapRow, CapabilitySet, RigidId, RowTail, Span, TyConId, TyVid, Type,
};
use ridge_typecheck::unify::unify;

fn builtins() -> BuiltinTyCons {
    BuiltinTyCons {
        int: TyConId(0),
        float: TyConId(1),
        bool: TyConId(2),
        text: TyConId(3),
        unit: TyConId(4),
        list: TyConId(5),
        map: TyConId(6),
        set: TyConId(7),
        option: TyConId(8),
        result: TyConId(9),
        handle: TyConId(10),
        timestamp: TyConId(11),
        error: TyConId(12),
        duration: TyConId(13),
        proc_output: TyConId(14),
        decimal: TyConId(16),
        uuid: TyConId(17),
        bytes: TyConId(18),
        date: TyConId(19),
        time: TyConId(20),
        json_value: TyConId(21),
        sql_value: TyConId(22),
        quote: TyConId(23),
        ret: TyConId(24),
        rows: TyConId(25),
        q_expr: TyConId(26),
    }
}

fn con(id: TyConId) -> Type {
    Type::Con(id, vec![])
}

fn list(t: Type) -> Type {
    Type::Con(builtins().list, vec![t])
}

#[test]
fn unified_types_agree_afterwards() {
    let b = builtins();
    let mut vt = VarTable::new();
    let x = vt.fresh();
    let y = vt.fresh();
    let left = Type::Tuple(vec![Type::Var(x), list(Type::Var(y))]);
    let right = Type::Tuple(vec![con(b.int), list(Type::Var(x))]);
    assert!(unify(&mut vt, &left, &right).is_ok());
    assert!(matches!(vt.deep_resolve(&Type::Var(x)), Type::Con(i, _) if i == b.int));
    assert!(matches!(vt.deep_resolve(&Type::Var(y)), Type::Con(i, _) if i == b.int));
    assert_eq!(
        format!("{:?}", vt.deep_resolve(&left)),
        format!("{:?}", vt.deep_resolve(&right))
    );
}

#[test]
fn a_variable_is_not_part_of_itself() {
    let mut vt = VarTable::new();
    let x = vt.fresh();
    match unify(&mut vt, &Type::Var(x), &list(Type::Var(x))) {
        Err(e) => assert_eq!(e.code(), "T010"),
        Ok(()) => panic!("no such type"),
    }
    assert!(unify(&mut vt, &Type::Var(x), &Type::Var(x)).is_ok());
    assert!(vt.is_open(x));
}

#[test]
fn what_does_not_unify() {
    let b = builtins();
    let code = |l: Type, r: Type| {
        let mut vt = VarTable::new();
        match unify(&mut vt, &l, &r) {
            Ok(()) => "ok",
            Err(e) => e.code(),
        }
    };
    let f = |n: usize| Type::Fn {
        params: (0..n).map(|_| con(b.int)).collect(),
        ret: Box::new(con(b.int)),
        caps: CapRow::Concrete(CapabilitySet::pure()),
    };
    assert_eq!(code(con(b.int), con(b.int)), "ok");
    assert_eq!(code(con(b.int), con(b.text)), "T001");
    assert_eq!(code(f(1), f(2)), "T003");
    assert_eq!(code(Type::Tuple(vec![]), Type::Tuple(vec![con(b.int)])), "T057");
    assert_eq!(code(Type::Error, con(b.int)), "ok");
    let rigid = |n: u32| Type::Rigid { id: RigidId(n), name: "a".to_string() };
    assert_eq!(code(rigid(0), rigid(0)), "ok");
    assert_eq!(code(rigid(0), rigid(1)), "T001");
    let rec = |l: &str| Type::Record {
        fields: vec![(l.to_string(), con(b.int))],
        tail: RowTail::Closed,
    };
    assert_eq!(code(rec("a"), rec("a")), "ok");
    assert_ne!(code(rec("a"), rec("b")), "ok");
}

#[test]
fn variables_are_found_and_replaced() {
    let b = builtins();
    let t = list(Type::Var(TyVid(3)));
    assert!(occurs_in(TyVid(3), &t));
    assert!(!occurs_in(TyVid(4), &t));
    assert_eq!(
        format!("{:?}", replace_var(&t, TyVid(3), &con(b.int))),
        format!("{:?}", list(con(b.int)))
    );
    let mut vt = VarTable::new();
    let x = vt.fresh();
    assert!(!vt.bind(x, &list(Type::Var(x))));
    assert!(vt.bind(x, &con(b.int)));
    assert!(!vt.is_open(x));
    let c = vt.fresh_cap();
    assert!(vt.is_open_cap(c));
    vt.bind_cap(c, CapRow::Concrete(CapabilitySet(3)));
    assert_eq!(vt.resolve_row(CapRow::Var(c)), CapRow::Concrete(CapabilitySet(3)));
    assert_eq!((vt.len(), vt.cap_len()), (1, 1));
}

#[test]
fn the_innermost_and_latest_binding_wins() {
    let b = builtins();
    let mut env = Env::new();
    env.push_frame();
    env.bind("x".to_string(), monoscheme(con(b.int)));
    env.bind("x".to_string(), monoscheme(con(b.bool)));
    env.push_frame();
    env.bind("x".to_string(), monoscheme(con(b.text)));
    let ty = |env: &Env| match env.lookup("x") {
        Some(s) => match &s.ty {
            Type::Con(i, _) => Some(*i),
            _ => None,
        },
        None => None,
    };
    assert_eq!(ty(&env), Some(b.text));
    env.pop_frame();
    assert_eq!(ty(&env), Some(b.bool));
    env.pop_frame();
    assert_eq!(ty(&env), None);
}

#[test]
fn ids_are_kept_by_sort() {
    let mut ids = NodeIdMap::new();
    ids.assign(Span::new(1, 4), NodeKind::Expr, 7);
    ids.assign(Span::new(1, 4), NodeKind::Block, 8);
    assert_eq!(ids.get(Span::new(1, 4), NodeKind::Expr), Some(7));
    assert_eq!(ids.get(Span::new(1, 4), NodeKind::Block), Some(8));
    assert_eq!(ids.get(Span::new(1, 4), NodeKind::Try), None);
    assert_eq!(ids.get(Span::new(1, 5), NodeKind::Expr), None);
}

#[test]
fn the_type_of_a_node_is_written_at_its_id() {
    let b = builtins();
    let mut ctx = InferCtx::new();
    ctx.node_ids.assign(Span::new(1, 4), NodeKind::Expr, 2);
    ctx.write_node_type(Span::new(1, 4), &con(b.int));
    ctx.write_node_type(Span::new(9, 9), &con(b.text));
    assert_eq!(ctx.node_types.len(), 3);
    assert!(ctx.node_types[0].is_none());
    assert!(matches!(&ctx.node_types[2], Some(Type::Con(i, _)) if *i == b.int));
    assert_eq!(ctx.tycon_named("User"), None);
    ctx.user_tycon_names.insert("User".to_string(), TyConId(30));
    assert_eq!(ctx.tycon_named("User"), Some(TyConId(30)));
}

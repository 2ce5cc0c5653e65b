use ridge_typecheck::classes::{
    ClassInfo, ClassTable, FnArities, FunDep, InstanceEntry, InstanceEnv, InstanceInfo,
};
use ridge_typecheck::ctx::InferCtx;
use ridge_typecheck::instantiate::instantiate;
use ridge_typecheck::plans::DictPlan;
use ridge_typecheck::solve::{report_ambiguous_element_dicts, solve_constraints};
use ridge_typecheck::types::{
    BuiltinTyCons, ClassId, Constraint, Scheme, Span, TyConId, TyVid, Type,
};
use rustc_hash::FxHashSet;

const EQ_CLASS: ClassId = ClassId(0);
const ORD_CLASS: ClassId = ClassId(1);
const TOTEXT_CLASS: ClassId = ClassId(2);
const ENCODE_CLASS: ClassId = ClassId(3);

fn builtins() -> BuiltinTyCons {
    BuiltinTyCons {
        int: TyConId(0),
        float: TyConId(1),
        bool: TyConId(2),
        text: TyConId(3),
        unit: TyConId(4),
        list: TyConId(5),
        map: TyConId(6),
        set: TyConId(7),
        option: TyConId(8),
        result: TyConId(9),
        handle: TyConId(10),
        timestamp: TyConId(11),
        error: TyConId(12),
        duration: TyConId(13),
        proc_output: TyConId(14),
        decimal: TyConId(16),
        uuid: TyConId(17),
        bytes: TyConId(18),
        date: TyConId(19),
        time: TyConId(20),
        json_value: TyConId(21),
        sql_value: TyConId(22),
        quote: TyConId(23),
        ret: TyConId(24),
        rows: TyConId(25),
        q_expr: TyConId(26),
    }
}

fn ds() -> Span {
    Span::point(0)
}

fn make_instance_info() -> InstanceInfo {
    InstanceInfo { id: 7, ctx_constraints: vec![], head_var_positions: vec![] }
}

/// An instance such as that of `List a`, whose element at `arg_pos` must be in
/// `ctx_class`.
fn make_parametric_instance(ctx_class: ClassId, arg_pos: usize) -> InstanceInfo {
    InstanceInfo {
        id: 8,
        ctx_constraints: vec![Constraint::single(ctx_class, TyVid(0))],
        head_var_positions: vec![arg_pos],
    }
}

/// An instance such as that of `Result a e`.
fn make_parametric_instance_2(ctx_class: ClassId, pos0: usize, pos1: usize) -> InstanceInfo {
    InstanceInfo {
        id: 9,
        ctx_constraints: vec![
            Constraint::single(ctx_class, TyVid(0)),
            Constraint::single(ctx_class, TyVid(0)),
        ],
        head_var_positions: vec![pos0, pos1],
    }
}

fn class(id: ClassId, name: &str, superclasses: Vec<ClassId>) -> ClassInfo {
    ClassInfo { id, name: name.to_string(), superclasses, fundeps: vec![], method_sigs: vec![] }
}

fn make_class_table() -> ClassTable {
    ClassTable {
        classes: vec![
            class(EQ_CLASS, "Eq", vec![]),
            class(ORD_CLASS, "Ord", vec![EQ_CLASS]),
            class(TOTEXT_CLASS, "ToText", vec![]),
            class(ENCODE_CLASS, "Encode", vec![]),
        ],
    }
}

fn no_instances() -> InstanceEnv {
    InstanceEnv { entries: vec![], fn_arities: FnArities { base: 1000, count: 8 } }
}

fn insert(env: &mut InstanceEnv, class: ClassId, key: &[TyConId], info: InstanceInfo) {
    env.entries.push(InstanceEntry {
        class,
        key: key.to_vec(),
        info,
        head_vars: vec![],
        head: vec![],
    });
}

fn make_instance_env_with(class: ClassId, tycon: TyConId) -> InstanceEnv {
    let mut env = no_instances();
    insert(&mut env, class, &[tycon], make_instance_info());
    env
}

#[test]
fn case_a_concrete_instance_present_no_error() {
    let mut ctx = InferCtx::new();
    let b = builtins();

    // Use the Int TyConId as a stand-in for a concrete type with a ToText instance.
    let int_tycon = b.int;
    let a = ctx.fresh_tyvid();

    // Unify the TyVid with Int so deep_resolve returns Type::Con(int_tycon, []).
    assert!(ctx.vars.bind(a, &Type::Con(int_tycon, vec![])));

    // Push a deferred constraint: ToText a (which resolves to ToText Int).
    ctx.deferred_constraints
        .push(Constraint::single(TOTEXT_CLASS, a));

    let ct = make_class_table();
    let env = make_instance_env_with(TOTEXT_CLASS, int_tycon);
    let env_snap: FxHashSet<u32> = FxHashSet::default();

    let (retained, dict_res) =
        solve_constraints(&mut ctx, &env, &ct, &env_snap, ds(), None);

    // The constraint was satisfied: no errors, not retained.
    assert!(
        ctx.errors.is_empty(),
        "case (a) must produce no errors; got {:?}",
        ctx.errors
    );
    assert!(retained.is_empty(), "case (a): no retained constraints");
    // A Static dict plan must be recorded.
    let plan = dict_res.get(&(TOTEXT_CLASS.0, a.0));
    assert!(
        matches!(plan, Some(DictPlan::Static { .. })),
        "case (a): expected Static plan, got {plan:?}"
    );
}

#[test]
fn case_a_concrete_no_instance_emits_t029() {
    let mut ctx = InferCtx::new();
    let b = builtins();

    let float_tycon = b.float;
    let a = ctx.fresh_tyvid();

    assert!(ctx.vars.bind(a, &Type::Con(float_tycon, vec![])));

    // ToText a where a = Float, but no ToText Float instance exists.
    ctx.deferred_constraints
        .push(Constraint::single(TOTEXT_CLASS, a));

    let ct = make_class_table();
    let env = no_instances(); // empty — no instances
    let env_snap: FxHashSet<u32> = FxHashSet::default();

    let (retained, _) = solve_constraints(&mut ctx, &env, &ct, &env_snap, ds(), None);

    assert!(
        ctx.errors.iter().any(|e| e.code() == "T029"),
        "case (a) missing instance must emit T029; errors: {:?}",
        ctx.errors
    );
    assert!(retained.is_empty());
}

#[test]
fn case_b_free_var_not_in_env_retained() {
    let mut ctx = InferCtx::new();
    let a = ctx.fresh_tyvid();

    // Push a deferred constraint: ToText a. `a` is fresh and not unified.
    ctx.deferred_constraints
        .push(Constraint::single(TOTEXT_CLASS, a));

    let ct = make_class_table();
    let env = no_instances();
    // env_snap does NOT contain `a` → case (b).
    let env_snap: FxHashSet<u32> = FxHashSet::default();

    let (retained, dict_res) =
        solve_constraints(&mut ctx, &env, &ct, &env_snap, ds(), None);

    assert!(
        ctx.errors.is_empty(),
        "case (b) must produce no errors; got {:?}",
        ctx.errors
    );
    assert_eq!(retained.len(), 1, "case (b): must retain the constraint");
    assert!(retained[0].same(&Constraint::single(TOTEXT_CLASS, a)));
    // A Forward plan must be recorded.
    let plan = dict_res.get(&(TOTEXT_CLASS.0, a.0));
    assert!(
        matches!(plan, Some(DictPlan::Forward(_))),
        "case (b): expected Forward plan, got {plan:?}"
    );
}

#[test]
fn case_c_escaping_var_emits_t030() {
    let mut ctx = InferCtx::new();
    let a = ctx.fresh_tyvid();

    ctx.deferred_constraints
        .push(Constraint::single(TOTEXT_CLASS, a));

    let ct = make_class_table();
    let env = no_instances();
    // env_snap CONTAINS `a` → case (c): ambiguous.
    let mut env_snap: FxHashSet<u32> = FxHashSet::default();
    env_snap.insert(a.0);

    let (retained, _) = solve_constraints(&mut ctx, &env, &ct, &env_snap, ds(), None);

    assert!(
        ctx.errors.iter().any(|e| e.code() == "T030"),
        "case (c) escaping var must emit T030; errors: {:?}",
        ctx.errors
    );
    assert!(retained.is_empty(), "case (c): nothing retained");
}

#[test]
fn empty_deferred_is_noop() {
    let mut ctx = InferCtx::new();
    // No constraints pushed.
    let ct = make_class_table();
    let env = no_instances();
    let env_snap: FxHashSet<u32> = FxHashSet::default();

    let (retained, dict_res) =
        solve_constraints(&mut ctx, &env, &ct, &env_snap, ds(), None);

    assert!(ctx.errors.is_empty());
    assert!(retained.is_empty());
    assert!(dict_res.is_empty());
}

#[test]
fn superclass_requirement_propagated() {
    let mut ctx = InferCtx::new();
    let b = builtins();

    let int_tycon = b.int;
    let a = ctx.fresh_tyvid();

    assert!(ctx.vars.bind(a, &Type::Con(int_tycon, vec![])));

    // Require Ord a → the solver should also check Eq a (Ord's superclass).
    ctx.deferred_constraints
        .push(Constraint::single(ORD_CLASS, a));

    let ct = make_class_table();
    let mut env = no_instances();
    // Register BOTH Ord Int and Eq Int so the superclass check passes.
    insert(&mut env, ORD_CLASS, &[int_tycon], make_instance_info());
    insert(&mut env, EQ_CLASS, &[int_tycon], make_instance_info());

    let env_snap: FxHashSet<u32> = FxHashSet::default();
    let (retained, _) = solve_constraints(&mut ctx, &env, &ct, &env_snap, ds(), None);

    assert!(
        ctx.errors.is_empty(),
        "superclass present — no error; got {:?}",
        ctx.errors
    );
    assert!(retained.is_empty());
}

#[test]
fn superclass_missing_emits_t029() {
    let mut ctx = InferCtx::new();
    let b = builtins();

    let int_tycon = b.int;
    let a = ctx.fresh_tyvid();

    assert!(ctx.vars.bind(a, &Type::Con(int_tycon, vec![])));

    ctx.deferred_constraints
        .push(Constraint::single(ORD_CLASS, a));

    let ct = make_class_table();
    let mut env = no_instances();
    // Only Ord Int, no Eq Int → T029 for Eq.
    insert(&mut env, ORD_CLASS, &[int_tycon], make_instance_info());

    let env_snap: FxHashSet<u32> = FxHashSet::default();
    let (_, _) = solve_constraints(&mut ctx, &env, &ct, &env_snap, ds(), None);

    assert!(
        ctx.errors.iter().any(|e| e.code() == "T029"),
        "missing Eq superclass must emit T029; errors: {:?}",
        ctx.errors
    );
}

#[test]
fn instantiate_remaps_constraint_to_fresh_tyvid() {
    let mut ctx = InferCtx::new();

    // Pre-allocate one TyVid so that the fresh var allocated during
    // instantiate gets a different raw index than any scheme-bound var.
    // Without this, both the bound var and the fresh var could be TyVid(0).
    let _pre = ctx.fresh_tyvid(); // TyVid(0) consumed

    let a = TyVid(99); // a raw index far from any allocated var
                       // forall a. a, with constraint ToText a
    let scheme = Scheme {
        vars: vec![a],
        cap_vars: vec![],
        ty: Type::Var(a),
        constraints: vec![Constraint::single(TOTEXT_CLASS, a)],
    };

    assert!(ctx.deferred_constraints.is_empty());
    let _inst_ty = instantiate(&mut ctx, &scheme);

    // One constraint must have been pushed.
    assert_eq!(
        ctx.deferred_constraints.len(),
        1,
        "one constraint must be deferred after instantiate"
    );
    // The constraint's TyVid must be the fresh var that was allocated
    // during instantiate — NOT the bound var TyVid(99).
    let dc = &ctx.deferred_constraints[0];
    assert_eq!(dc.class, TOTEXT_CLASS);
    assert_ne!(
        dc.sole_ty(),
        a,
        "constraint TyVid must be the fresh var, not the bound var TyVid(99)"
    );
    // The fresh var must match the TyVid allocated inside the ctx (TyVid(1)
    // because TyVid(0) was pre-consumed above).
    assert_eq!(
        dc.sole_ty().0,
        1,
        "fresh var for the first scheme var must be TyVid(1)"
    );
}

#[test]
fn instantiate_unconstrained_scheme_pushes_nothing() {
    let mut ctx = InferCtx::new();
    let a = TyVid(0);
    let scheme = Scheme {
        vars: vec![a],
        cap_vars: vec![],
        ty: Type::Var(a),
        constraints: vec![], // unconstrained
    };

    let _ = instantiate(&mut ctx, &scheme);
    assert!(
        ctx.deferred_constraints.is_empty(),
        "unconstrained scheme must not push any deferred constraints"
    );
}

#[test]
fn retained_constraints_returned_for_attachment() {
    let mut ctx = InferCtx::new();
    let a = ctx.fresh_tyvid();
    let b = ctx.fresh_tyvid();

    // Two constraints: ToText a (will be retained) and ToText b (also retained).
    ctx.deferred_constraints
        .push(Constraint::single(TOTEXT_CLASS, a));
    ctx.deferred_constraints
        .push(Constraint::single(TOTEXT_CLASS, b));

    let ct = make_class_table();
    let env = no_instances();
    // Neither `a` nor `b` in env_snap → case (b) for both.
    let env_snap: FxHashSet<u32> = FxHashSet::default();

    let (retained, _) = solve_constraints(&mut ctx, &env, &ct, &env_snap, ds(), None);

    assert!(ctx.errors.is_empty());
    assert_eq!(retained.len(), 2, "both constraints must be retained");
    assert!(
        retained.iter().any(|c| c.class == TOTEXT_CLASS),
        "retained must include ToText constraint"
    );
}

/// `Encode (List Int)` — the solver must enqueue `Encode Int` (NOT a free var).
///
/// After solving: no error, `Encode Int` is also discharged via its concrete instance.
#[test]
fn parametric_list_int_enqueues_encode_int() {
    let mut ctx = InferCtx::new();
    let b = builtins();

    let list_tycon = b.list;
    let int_tycon = b.int;

    // The constraint variable resolves to `List Int`.
    let a = ctx.fresh_tyvid();
    assert!(ctx.vars.bind(a, &Type::Con(
            list_tycon,
            vec![Type::Con(int_tycon, vec![])],
        )));

    ctx.deferred_constraints
        .push(Constraint::single(ENCODE_CLASS, a));

    let ct = make_class_table();
    let mut env = no_instances();
    // Register `Encode (List a) where Encode a` — parametric.
    insert(&mut env, ENCODE_CLASS, &[list_tycon], make_parametric_instance(ENCODE_CLASS, 0));
    // Register `Encode Int` — the sub-constraint must resolve here.
    insert(&mut env, ENCODE_CLASS, &[int_tycon], make_instance_info());

    let env_snap: FxHashSet<u32> = FxHashSet::default();
    let (retained, dict_res) =
        solve_constraints(&mut ctx, &env, &ct, &env_snap, ds(), None);

    assert!(
        ctx.errors.is_empty(),
        "Encode (List Int) with Encode Int present must produce no errors; got {:?}",
        ctx.errors
    );
    assert!(retained.is_empty(), "all constraints must be discharged");

    // A Static plan for the outer Encode (List _) constraint must exist.
    let outer_plan = dict_res.get(&(ENCODE_CLASS.0, a.0));
    assert!(
        matches!(outer_plan, Some(DictPlan::Static { tycon, .. }) if *tycon == list_tycon),
        "outer plan must be Static for List; got {outer_plan:?}"
    );
}

/// A multi-parameter instance with a heterogeneous context (`instance Demo
/// (Box a) (Tag b) where Encode a`) threads the context sub-dictionary across
/// the flattened head: solving `Demo (Box Int) (Tag Bool)` yields a Static
/// plan whose one arg is the `Encode Int` sub-dictionary, tagged with its own
/// class. Exercises `resolve_ctx_dict_args_multi` and the `Static.class` field.
#[test]
fn multi_param_instance_context_threads_sub_dict() {
    let mut ctx = InferCtx::new();
    let b = builtins();
    let int_tycon = b.int;
    // Two arbitrary builtin tycons stand in for the head constructors.
    let box_tycon = b.list;
    let tag_tycon = b.set;

    let mut ct = make_class_table();
    let demo = ClassId(90);
    ct.classes.push(class(demo, "Demo", vec![]));

    // q = Box Int, p = Tag Bool.
    let q = ctx.fresh_tyvid();
    let p = ctx.fresh_tyvid();
    assert!(ctx.vars.bind(q, &Type::Con(
            box_tycon,
            vec![Type::Con(int_tycon, vec![])],
        )));
    assert!(ctx.vars.bind(p, &Type::Con(tag_tycon, vec![Type::Con(b.bool, vec![])])));
    ctx.deferred_constraints
        .push(Constraint::new(demo, vec![q, p]));

    let mut env = no_instances();
    // instance Demo (Box a) (Tag b) where Encode a — `a` at flattened pos 0
    // (Box is the first atom; its single arg is position 0).
    insert(
        &mut env,
        demo,
        &[box_tycon, tag_tycon],
        make_parametric_instance(ENCODE_CLASS, 0),
    );
    insert(&mut env, ENCODE_CLASS, &[int_tycon], make_instance_info());

    let env_snap: FxHashSet<u32> = FxHashSet::default();
    let (_retained, dict_res) =
        solve_constraints(&mut ctx, &env, &ct, &env_snap, ds(), Some(&b));

    assert!(ctx.errors.is_empty(), "no errors; got {:?}", ctx.errors);
    match dict_res.get(&(demo.0, q.0)) {
        Some(DictPlan::Static { tycon, args, .. }) => {
            assert_eq!(*tycon, box_tycon, "outer plan keyed on the first head atom");
            assert_eq!(args.len(), 1, "one context sub-dict (Encode a)");
            assert!(
                matches!(&args[0], DictPlan::Static { tycon: t, class, .. }
                    if *t == int_tycon && *class == ENCODE_CLASS),
                "sub-dict must be `Encode Int` tagged with ENCODE_CLASS; got {:?}",
                args[0]
            );
        }
        other => panic!("expected a Static plan for Demo; got {other:?}"),
    }
}

/// `Encode (List Int)` without `Encode Int` in the env — must emit T029 for Int.
#[test]
fn parametric_list_int_missing_element_instance_emits_t029() {
    let mut ctx = InferCtx::new();
    let b = builtins();

    let list_tycon = b.list;
    let int_tycon = b.int;

    let a = ctx.fresh_tyvid();
    assert!(ctx.vars.bind(a, &Type::Con(
            list_tycon,
            vec![Type::Con(int_tycon, vec![])],
        )));
    ctx.deferred_constraints
        .push(Constraint::single(ENCODE_CLASS, a));

    let ct = make_class_table();
    let mut env = no_instances();
    // Only `Encode (List a)` — no `Encode Int`.
    insert(&mut env, ENCODE_CLASS, &[list_tycon], make_parametric_instance(ENCODE_CLASS, 0));

    let env_snap: FxHashSet<u32> = FxHashSet::default();
    let _ = solve_constraints(&mut ctx, &env, &ct, &env_snap, ds(), None);

    assert!(
        ctx.errors.iter().any(|e| e.code() == "T029"),
        "missing Encode Int must emit T029; errors: {:?}",
        ctx.errors
    );
}

/// `Encode (Map Text Bool)` — the solver must bind position-1 arg (Bool),
/// NOT position-0 (Text). Only Bool is the constrained element.
#[test]
fn parametric_map_text_bool_binds_bool_not_text() {
    let mut ctx = InferCtx::new();
    let b = builtins();

    let map_tycon = b.map;
    let text_tycon = b.text;
    let bool_tycon = b.bool;

    // a resolves to `Map Text Bool`.
    let a = ctx.fresh_tyvid();
    assert!(ctx.vars.bind(a, &Type::Con(
            map_tycon,
            vec![Type::Con(text_tycon, vec![]), Type::Con(bool_tycon, vec![])],
        )));
    ctx.deferred_constraints
        .push(Constraint::single(ENCODE_CLASS, a));

    let ct = make_class_table();
    let mut env = no_instances();
    // `Encode (Map Text a) where Encode a` — var at position 1.
    insert(&mut env, ENCODE_CLASS, &[map_tycon], make_parametric_instance(ENCODE_CLASS, 1));
    // Register `Encode Bool` — the correctly-positioned arg.
    insert(&mut env, ENCODE_CLASS, &[bool_tycon], make_instance_info());
    // Do NOT register `Encode Text` — if the solver mistakenly binds pos 0
    // it would emit T029 for Text.

    let env_snap: FxHashSet<u32> = FxHashSet::default();
    let (retained, _) = solve_constraints(&mut ctx, &env, &ct, &env_snap, ds(), None);

    assert!(
        ctx.errors.is_empty(),
        "Encode (Map Text Bool) with Encode Bool must have no errors; got {:?}",
        ctx.errors
    );
    assert!(retained.is_empty());
}

/// `Encode (Result Int Text)` with two `ctx_constraints` — both must be
/// substituted at their correct positions.
#[test]
fn parametric_result_int_text_both_positions() {
    let mut ctx = InferCtx::new();
    let b = builtins();

    let result_tycon = b.result;
    let int_tycon = b.int;
    let text_tycon = b.text;

    // a resolves to `Result Int Text`.
    let a = ctx.fresh_tyvid();
    assert!(ctx.vars.bind(a, &Type::Con(
            result_tycon,
            vec![Type::Con(int_tycon, vec![]), Type::Con(text_tycon, vec![])],
        )));
    ctx.deferred_constraints
        .push(Constraint::single(ENCODE_CLASS, a));

    let ct = make_class_table();
    let mut env = no_instances();
    // `Encode (Result a e) where Encode a, Encode e` — vars at positions 0 and 1.
    insert(&mut env, ENCODE_CLASS, &[result_tycon], make_parametric_instance_2(ENCODE_CLASS, 0, 1));
    insert(&mut env, ENCODE_CLASS, &[int_tycon], make_instance_info());
    insert(&mut env, ENCODE_CLASS, &[text_tycon], make_instance_info());

    let env_snap: FxHashSet<u32> = FxHashSet::default();
    let (retained, _) = solve_constraints(&mut ctx, &env, &ct, &env_snap, ds(), None);

    assert!(
        ctx.errors.is_empty(),
        "Encode (Result Int Text) must have no errors; got {:?}",
        ctx.errors
    );
    assert!(retained.is_empty());
}

/// `Row r c | r -> c`: a known first parameter gives the second.
#[test]
fn a_functional_dependency_fills_the_open_parameter() {
    let b = builtins();
    let mut ctx = InferCtx::new();
    let r = ctx.fresh_tyvid();
    let c = ctx.fresh_tyvid();
    assert!(ctx.vars.bind(r, &Type::Con(b.list, vec![Type::Con(b.int, vec![])])));
    let row = ClassId(91);
    ctx.deferred_constraints.push(Constraint::new(row, vec![r, c]));
    let mut ct = make_class_table();
    let mut info = class(row, "Row", vec![]);
    info.fundeps = vec![FunDep { from: vec![0], to: vec![1] }];
    ct.classes.push(info);
    let mut env = no_instances();
    env.entries.push(InstanceEntry {
        class: row,
        key: vec![b.list, b.set],
        info: make_instance_info(),
        head_vars: vec![TyVid(0)],
        head: vec![
            Type::Con(b.list, vec![Type::Var(TyVid(0))]),
            Type::Con(b.set, vec![Type::Var(TyVid(0))]),
        ],
    });
    let outer: FxHashSet<u32> = FxHashSet::default();
    let (retained, plans) = solve_constraints(&mut ctx, &env, &ct, &outer, ds(), Some(&b));
    assert!(ctx.errors.is_empty(), "{:?}", ctx.errors);
    assert!(retained.is_empty());
    match ctx.deep_resolve(&Type::Var(c)) {
        Type::Con(id, args) => {
            assert_eq!(id, b.set);
            assert!(matches!(args[..], [Type::Con(i, _)] if i == b.int));
        }
        other => panic!("{other:?}"),
    }
    match plans.get(&(row.0, r.0)) {
        Some(DictPlan::Static { extra_head, .. }) => {
            assert!(format!("{extra_head:?}").contains(&b.set.0.to_string()))
        }
        other => panic!("{other:?}"),
    }
}

#[test]
fn solving_takes_the_deferred_constraints_away() {
    let b = builtins();
    let mut ctx = InferCtx::new();
    let a = ctx.fresh_tyvid();
    assert!(ctx.vars.bind(a, &Type::Con(b.int, vec![])));
    ctx.deferred_constraints.push(Constraint::single(TOTEXT_CLASS, a));
    ctx.deferred_constraints.push(Constraint::single(TOTEXT_CLASS, a));
    let ct = make_class_table();
    let env = no_instances();
    let outer: FxHashSet<u32> = FxHashSet::default();
    let _ = solve_constraints(&mut ctx, &env, &ct, &outer, ds(), None);
    assert!(ctx.deferred_constraints.is_empty());
    assert_eq!(ctx.errors.len(), 1, "the second is the first again");
}

#[test]
fn functions_are_keyed_by_their_arity() {
    let mut ctx = InferCtx::new();
    let b = builtins();
    let a = ctx.fresh_tyvid();
    let f = Type::Fn {
        params: vec![Type::Con(b.int, vec![]), Type::Con(b.int, vec![])],
        ret: Box::new(Type::Con(b.int, vec![])),
        caps: ridge_typecheck::types::CapRow::Concrete(
            ridge_typecheck::types::CapabilitySet::pure(),
        ),
    };
    assert!(ctx.vars.bind(a, &f));
    ctx.deferred_constraints.push(Constraint::single(TOTEXT_CLASS, a));
    let env = make_instance_env_with(TOTEXT_CLASS, TyConId(1002));
    let outer: FxHashSet<u32> = FxHashSet::default();
    let (_, plans) = solve_constraints(&mut ctx, &env, &make_class_table(), &outer, ds(), None);
    assert!(ctx.errors.is_empty(), "{:?}", ctx.errors);
    assert!(matches!(
        plans.get(&(TOTEXT_CLASS.0, a.0)),
        Some(DictPlan::Static { tycon: TyConId(1002), .. })
    ));
}

#[test]
fn an_element_that_nothing_determines_is_reported() {
    let b = builtins();
    let mut ctx = InferCtx::new();
    let a = ctx.fresh_tyvid();
    let elem = ctx.fresh_tyvid();
    assert!(ctx.vars.bind(a, &Type::Con(b.list, vec![Type::Var(elem)])));
    ctx.deferred_constraints.push(Constraint::single(ENCODE_CLASS, a));
    let mut env = no_instances();
    insert(&mut env, ENCODE_CLASS, &[b.list], make_parametric_instance(ENCODE_CLASS, 0));
    let ct = make_class_table();
    let mut none: FxHashSet<u32> = FxHashSet::default();
    let (_, plans) = solve_constraints(&mut ctx, &env, &ct, &none, ds(), None);
    ctx.errors.clear();
    report_ambiguous_element_dicts(&mut ctx, &ct, &plans, &none, &none, ds());
    assert_eq!(ctx.errors.len(), 1, "{plans:?}");
    assert_eq!(ctx.errors[0].code(), "T030");
    ctx.errors.clear();
    none.insert(elem.0);
    let empty: FxHashSet<u32> = FxHashSet::default();
    report_ambiguous_element_dicts(&mut ctx, &ct, &plans, &none, &empty, ds());
    assert!(ctx.errors.is_empty());
}

/// The context of an instance is asked for at every type, not once for its head.
#[test]
fn each_type_of_a_head_is_looked_at() {
    let b = builtins();
    let list = |t: TyConId| Type::Con(b.list, vec![Type::Con(t, vec![])]);
    let mut ctx = InferCtx::new();
    let x = ctx.fresh_tyvid();
    let y = ctx.fresh_tyvid();
    assert!(ctx.vars.bind(x, &list(b.int)));
    assert!(ctx.vars.bind(y, &list(b.text)));
    ctx.deferred_constraints.push(Constraint::single(ENCODE_CLASS, y));
    ctx.deferred_constraints.push(Constraint::single(ENCODE_CLASS, x));
    let ct = make_class_table();
    let mut env = no_instances();
    insert(&mut env, ENCODE_CLASS, &[b.list], make_parametric_instance(ENCODE_CLASS, 0));
    insert(&mut env, ENCODE_CLASS, &[b.int], make_instance_info());
    let snap: FxHashSet<u32> = FxHashSet::default();
    let (_, plans) = solve_constraints(&mut ctx, &env, &ct, &snap, ds(), None);
    assert_eq!(ctx.errors.len(), 1, "{:?}", ctx.errors);
    assert_eq!(ctx.errors[0].code(), "T029");
    assert!(plans.contains_key(&(ENCODE_CLASS.0, x.0)));
    assert!(plans.contains_key(&(ENCODE_CLASS.0, y.0)));
}

/// Two constraints at one type are one requirement.
#[test]
fn one_type_is_looked_at_once() {
    let b = builtins();
    let mut ctx = InferCtx::new();
    for _ in 0..2 {
        let v = ctx.fresh_tyvid();
        assert!(ctx.vars.bind(v, &Type::Con(b.list, vec![Type::Con(b.int, vec![])])));
        ctx.deferred_constraints.push(Constraint::single(ENCODE_CLASS, v));
    }
    let snap: FxHashSet<u32> = FxHashSet::default();
    let _ = solve_constraints(&mut ctx, &no_instances(), &make_class_table(), &snap, ds(), None);
    assert_eq!(ctx.errors.len(), 1, "{:?}", ctx.errors);
}

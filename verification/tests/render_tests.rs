use ridge_typecheck::ctx::InferCtx;
use ridge_typecheck::error::{
    arity_subject, join_or, tuple_width_sentence, CapDeclKind, CapList, Severity, TypeDesc,
    TypeError,
};
use ridge_typecheck::names::{render_var, VarNamer};
use ridge_typecheck::render::{
    emit_internal, emit_internal_strict, no_instance_hint, render_at_depth, render_occurs_pair,
    render_type_pair_with, render_type_with, user_can_extend, user_can_extend_tycon,
};
use ridge_typecheck::types::{
    RigidId, RowTail, RowVid, Span, TyConDecl, TyConId, TyConKind, TyVid, Type,
};

fn sp() -> Span {
    Span::point(0)
}

fn desc(text: &str) -> TypeDesc {
    TypeDesc::Text(text.to_owned())
}

fn caps(names: &[&str]) -> CapList {
    CapList { names: names.iter().map(|n| (*n).to_owned()).collect() }
}

fn rigid(name: &str) -> Type {
    Type::Rigid { id: RigidId(0), name: name.into() }
}

/// A constructor named `name` at slot `id`.
fn tc(id: u32, name: &str) -> TyConDecl {
    TyConDecl {
        id: TyConId(id),
        name: name.to_owned(),
        arity: 0,
        kind: TyConKind::Primitive,
        def_module_raw: None,
        opaque: false,
        is_anon: false,
    }
}

fn join_tycons() -> Vec<TyConDecl> {
    vec![
        tc(0, "User"),
        tc(1, "Post"),
        tc(2, "Comment"),
        tc(3, "Query"),
        tc(4, "Joined"),
        tc(5, "LeftJoin"),
        tc(6, "LeftJoined"),
        tc(7, "RightJoined"),
        tc(8, "Mem"),
    ]
}

fn leaf(id: u32) -> Type {
    Type::Con(TyConId(id), vec![])
}

/// The source, the new table and the adapter of a join.
fn join3(id: u32, a: Type, b: Type, c: Type) -> Type {
    Type::Con(TyConId(id), vec![a, b, c])
}

/// The base of a join: one table.
fn query(entity: Type, adapter: Type) -> Type {
    Type::Con(TyConId(3), vec![entity, adapter])
}

/// `T123` or `T123:`.
fn looks_like_a_code(word: &str) -> bool {
    let w = word.trim_end_matches(':');
    w.len() == 4 && w.starts_with('T') && w[1..].bytes().all(|b| b.is_ascii_digit())
}

/// Names every variant, so a new one stops the build until it is added to
/// the list below instead of quietly escaping every test that walks it.
fn assert_every_variant_is_named(e: &TypeError) {
    match e {
        TypeError::TypeMismatch { .. }
        | TypeError::TypeMismatchInCall { .. }
        | TypeError::ArityMismatch { .. }
        | TypeError::MissingField { .. }
        | TypeError::UnknownField { .. }
        | TypeError::WithOnNonRecord { .. }
        | TypeError::PatternTypeMismatch { .. }
        | TypeError::WrongConstructorArity { .. }
        | TypeError::OccursCheck { .. }
        | TypeError::RecursiveTypeAlias { .. }
        | TypeError::PolymorphicRecursion { .. }
        | TypeError::CapabilityNotDeclared { .. }
        | TypeError::UnknownActorHandler { .. }
        | TypeError::NonExhaustiveMatch { .. }
        | TypeError::RedundantPattern { .. }
        | TypeError::CallerCapabilityInsufficient { .. }
        | TypeError::ActorCapabilityLeak { .. }
        | TypeError::SendOnNonActor { .. }
        | TypeError::AskOnNonActor { .. }
        | TypeError::PropagateOutsideResultOrOption { .. }
        | TypeError::DiscardedResult { .. }
        | TypeError::UnsolvedTypeVariable { .. }
        | TypeError::RowVariableLeak { .. }
        | TypeError::SpawnArityMismatch { .. }
        | TypeError::AskTimeoutNotInt { .. }
        | TypeError::MailboxPolicyDropOldestNotShipped { .. }
        | TypeError::IncompleteRecordPattern { .. }
        | TypeError::NoInstance { .. }
        | TypeError::AmbiguousConstraint { .. }
        | TypeError::OrphanInstance { .. }
        | TypeError::OverlappingInstance { .. }
        | TypeError::MissingSuperclassInstance { .. }
        | TypeError::ToTextConflict { .. }
        | TypeError::SuperclassCycle { .. }
        | TypeError::OpaqueFieldAccess { .. }
        | TypeError::RowMismatch { .. }
        | TypeError::InstanceArityMismatch { .. }
        | TypeError::QuoteUnknownColumn { .. }
        | TypeError::QuoteUnsupportedExpr { .. }
        | TypeError::QuoteComparisonMismatch { .. }
        | TypeError::QuoteEntityUnknown { .. }
        | TypeError::RefutablePatternParam { .. }
        | TypeError::NotAConstructor { .. }
        | TypeError::UnknownFunDepVar { .. }
        | TypeError::ConflictingFunDep { .. }
        | TypeError::InsertShapeFullEntity { .. }
        | TypeError::ActorCallbackSignature { .. }
        | TypeError::UnknownTypeVersion { .. }
        | TypeError::DuplicateMigration { .. }
        | TypeError::UnsupportedInstanceHead { .. }
        | TypeError::ArithmeticOnNonNumeric { .. }
        | TypeError::MainHasParams { .. }
        | TypeError::MainErrorNotShowable { .. }
        | TypeError::FieldAccessOnNonRecord { .. }
        | TypeError::MissingConstraint { .. }
        | TypeError::UnknownTypeName { .. }
        | TypeError::TupleWidthMismatch { .. }
        | TypeError::InternalTypeError { .. } => {}
    }
}

/// Every `TypeError` once, plus one case per branch of the arms that render
/// more than one sentence.
fn one_of_each() -> Vec<TypeError> {
    let s = || "x".to_owned();
    let td = || TypeDesc::Text("x".to_owned());
    let io = || caps(&["io"]);

    let mut all = vec![
        TypeError::TypeMismatch {
            expected: td(),
            found: td(),
            span: sp(),
            hint: None,
        },
        TypeError::TypeMismatch {
            expected: td(),
            found: td(),
            span: sp(),
            hint: Some(s()),
        },
        TypeError::TypeMismatchInCall {
            callee: s(),
            arg_index: 0,
            expected: td(),
            found: td(),
            span: sp(),
        },
        TypeError::ArityMismatch {
            callee: s(),
            expected: 2,
            found: 3,
            span: sp(),
            hint: None,
        },
        TypeError::ArityMismatch {
            callee: String::new(),
            expected: 1,
            found: 2,
            span: sp(),
            hint: Some(s()),
        },
        TypeError::MissingField {
            record: s(),
            field: s(),
            span: sp(),
        },
        TypeError::UnknownField {
            record: s(),
            field: s(),
            suggestions: vec![s()],
            span: sp(),
        },
        TypeError::UnknownField {
            record: s(),
            field: s(),
            suggestions: Vec::new(),
            span: sp(),
        },
        TypeError::WithOnNonRecord {
            ty: td(),
            span: sp(),
        },
        TypeError::PatternTypeMismatch {
            expected: td(),
            pattern: td(),
            span: sp(),
        },
        TypeError::WrongConstructorArity {
            ctor: s(),
            expected: 1,
            found: 2,
            span: sp(),
        },
        TypeError::OccursCheck {
            var: td(),
            ty: td(),
            span: sp(),
        },
        TypeError::RecursiveTypeAlias {
            cycle: vec![s(), s()],
            span: sp(),
        },
        TypeError::PolymorphicRecursion {
            decl: s(),
            fix_hint: s(),
            recursive_call_span: sp(),
        },
        TypeError::UnknownActorHandler {
            actor: s(),
            handler: s(),
            suggestions: vec![s()],
            span: sp(),
        },
        TypeError::UnknownActorHandler {
            actor: s(),
            handler: s(),
            suggestions: Vec::new(),
            span: sp(),
        },
        TypeError::NonExhaustiveMatch {
            scrutinee_ty: td(),
            witnesses: vec![s()],
            total_missing: 1,
            span: sp(),
        },
        TypeError::NonExhaustiveMatch {
            scrutinee_ty: td(),
            witnesses: vec![s(), s(), s()],
            total_missing: 9,
            span: sp(),
        },
        TypeError::RedundantPattern {
            arm_index: 1,
            span: sp(),
        },
        TypeError::CallerCapabilityInsufficient {
            caller: s(),
            callee: s(),
            missing: io(),
            span: sp(),
        },
        TypeError::ActorCapabilityLeak {
            actor: s(),
            handler: s(),
            leaking_caps: io(),
            span: sp(),
        },
        TypeError::SendOnNonActor {
            found_ty: td(),
            span: sp(),
        },
        TypeError::AskOnNonActor {
            found_ty: td(),
            span: sp(),
        },
        TypeError::DiscardedResult {
            ty: td(),
            span: sp(),
        },
        TypeError::UnsolvedTypeVariable {
            var: s(),
            generalisation_site: sp(),
        },
        TypeError::RowVariableLeak {
            decl: s(),
            span: sp(),
        },
        TypeError::SpawnArityMismatch {
            actor: s(),
            expected: 1,
            found: 2,
            span: sp(),
        },
        TypeError::AskTimeoutNotInt {
            found: td(),
            span: sp(),
        },
        TypeError::MailboxPolicyDropOldestNotShipped {
            actor: s(),
            span: sp(),
        },
        TypeError::IncompleteRecordPattern {
            record: s(),
            missing_fields: vec![s()],
            span: sp(),
        },
        TypeError::NoInstance {
            class: s(),
            ty: td(),
            span: sp(),
            fix_hint: s(),
        },
        TypeError::AmbiguousConstraint {
            class: s(),
            ty_var: td(),
            span: sp(),
        },
        TypeError::OrphanInstance {
            class: s(),
            ty: td(),
            instance_module: s(),
            legal_modules: vec![s()],
            span: sp(),
        },
        TypeError::OverlappingInstance {
            class: s(),
            ty: td(),
            first_span: sp(),
            second_span: sp(),
        },
        TypeError::MissingSuperclassInstance {
            class: s(),
            ty: td(),
            superclass: s(),
            span: sp(),
        },
        TypeError::ToTextConflict {
            ty: td(),
            totext_span: sp(),
            auto_promote_span: sp(),
        },
        TypeError::SuperclassCycle {
            cycle: vec![s(), s()],
            span: sp(),
        },
        TypeError::OpaqueFieldAccess {
            record: s(),
            field: s(),
            span: sp(),
        },
        TypeError::RowMismatch {
            expected: td(),
            found: td(),
            missing_fields: vec![s()],
            extra_fields: vec![s()],
            span: sp(),
        },
        TypeError::RowMismatch {
            expected: td(),
            found: td(),
            missing_fields: Vec::new(),
            extra_fields: Vec::new(),
            span: sp(),
        },
        TypeError::InstanceArityMismatch {
            class: s(),
            expected: 1,
            found: 2,
            span: sp(),
        },
        TypeError::QuoteUnknownColumn {
            entity: s(),
            column: s(),
            suggestions: vec![s()],
            span: sp(),
        },
        TypeError::QuoteUnknownColumn {
            entity: s(),
            column: s(),
            suggestions: Vec::new(),
            span: sp(),
        },
        TypeError::QuoteUnsupportedExpr {
            detail: s(),
            span: sp(),
        },
        TypeError::QuoteComparisonMismatch {
            left: td(),
            right: td(),
            span: sp(),
        },
        TypeError::QuoteEntityUnknown { span: sp() },
        TypeError::RefutablePatternParam {
            witness: s(),
            ty: td(),
            span: sp(),
        },
        TypeError::NotAConstructor {
            name: s(),
            hint: s(),
            span: sp(),
        },
        TypeError::UnknownFunDepVar {
            class: s(),
            var: s(),
            span: sp(),
        },
        TypeError::ConflictingFunDep {
            class: s(),
            determining: s(),
            first_span: sp(),
            second_span: sp(),
        },
        TypeError::InsertShapeFullEntity {
            entity: s(),
            companion: s(),
            omitted: vec![s()],
            span: sp(),
        },
        TypeError::ActorCallbackSignature {
            member: "init",
            expected: s(),
            found: s(),
            span: sp(),
        },
        TypeError::UnknownTypeVersion {
            name: s(),
            ordinal: 2,
            span: sp(),
        },
        TypeError::DuplicateMigration {
            name: s(),
            ordinal: 2,
            span: sp(),
        },
        TypeError::UnsupportedInstanceHead {
            class: s(),
            reason: s(),
            span: sp(),
        },
        // `Text` gets advice of its own: `++`, not `+`.
        TypeError::ArithmeticOnNonNumeric {
            op: "+",
            found: TypeDesc::Text("Text".to_owned()),
            span: sp(),
        },
        TypeError::ArithmeticOnNonNumeric {
            op: "+",
            found: TypeDesc::Text("Bool".to_owned()),
            span: sp(),
        },
        TypeError::MainHasParams {
            found: 1,
            span: sp(),
        },
        TypeError::MainErrorNotShowable {
            ty: td(),
            fix_hint: s(),
            decl_site: None,
            span: sp(),
        },
        TypeError::FieldAccessOnNonRecord {
            ty: td(),
            field: s(),
            suggestion: Some(s()),
            span: sp(),
        },
        TypeError::FieldAccessOnNonRecord {
            ty: td(),
            field: s(),
            suggestion: None,
            span: sp(),
        },
        TypeError::MissingConstraint {
            decl: s(),
            class: s(),
            ty_var: td(),
            fix_hint: s(),
            span: sp(),
        },
        TypeError::UnknownTypeName {
            name: s(),
            span: sp(),
            suggestions: vec![s()],
        },
        TypeError::UnknownTypeName {
            name: s(),
            span: sp(),
            suggestions: Vec::new(),
        },
        TypeError::TupleWidthMismatch {
            expected: 2,
            found: 3,
            span: sp(),
        },
        TypeError::PropagateOutsideResultOrOption {
            found_ty: td(),
            expected: td(),
            span: sp(),
        },
        TypeError::InternalTypeError {
            detail: s(),
            span: sp(),
        },
    ];

    // T014 writes six different sentences, one per declaration site.
    for kind in [
        CapDeclKind::Fn,
        CapDeclKind::Handler,
        CapDeclKind::Init,
        CapDeclKind::Terminate,
        CapDeclKind::OnDown,
        CapDeclKind::InnerFn,
    ] {
        all.push(TypeError::CapabilityNotDeclared {
            decl: s(),
            kind,
            declared: caps(&[]),
            inferred: io(),
            missing: io(),
            span: sp(),
        });
    }

    for e in &all {
        assert_every_variant_is_named(e);
    }
    all
}

#[test]
fn render_var_letters() {
    assert_eq!(render_var(0), "a");
    assert_eq!(render_var(1), "b");
    assert_eq!(render_var(25), "z");
    assert_eq!(render_var(26), "a1");
    assert_eq!(render_var(27), "b1");
}

#[test]
fn render_tuple_of_vars() {
    let tup = Type::Tuple(vec![Type::Var(TyVid(0)), Type::Var(TyVid(1))]);
    assert_eq!(render_type_with(&tup, &vec![]), "(a, b)");
}

#[test]
fn render_canonicalises_high_var_ids() {
    // A deep inference run leaves variables with large union-find ids
    // (438/439 would otherwise print as `w16 x16`). Canonicalisation maps
    // them back to first-appearance letters, so the same logical type
    // always reads `(a, b)`.
    let tup = Type::Tuple(vec![Type::Var(TyVid(438)), Type::Var(TyVid(439))]);
    assert_eq!(render_type_with(&tup, &vec![]), "(a, b)");
}

#[test]
fn render_reuses_one_letter_per_variable() {
    // A repeated variable keeps its letter; a fresh one advances.
    let tup = Type::Tuple(vec![
        Type::Var(TyVid(50)),
        Type::Var(TyVid(50)),
        Type::Var(TyVid(7)),
    ]);
    assert_eq!(render_type_with(&tup, &vec![]), "(a, a, b)");
}

#[test]
fn render_rigid_uses_the_authors_name() {
    // The opaque trailing arm would print `_`, and "you promised `a`" would
    // have become a sentence about nothing.
    assert_eq!(render_type_with(&rigid("a"), &vec![]), "a");
    assert_eq!(render_type_with(&rigid("elem"), &vec![]), "elem");
}

#[test]
fn generated_letters_step_over_the_authors_names() {
    // Without this the mismatch between a signature's `a` and a variable
    // the body left open reads `expected a, found a`.
    let (e, f) = render_type_pair_with(&rigid("a"), &Type::Var(TyVid(0)), &vec![]);
    assert_eq!(e, "a");
    assert_eq!(f, "b");
}

#[test]
fn a_variable_rendered_first_still_yields_the_authors_name() {
    // The reserving pass runs over the whole render rather than reserving
    // names as they are met: here the variable is named before the rigid is
    // ever seen, and it still has to give way.
    let (e, f) = render_type_pair_with(&Type::Var(TyVid(0)), &rigid("a"), &vec![]);
    assert_eq!(e, "b");
    assert_eq!(f, "a");
}

#[test]
fn letters_skip_every_name_the_author_used() {
    // Two signature variables spelled `a` and `b` push the generated letter
    // to `c`, not to `b`.
    let signature = Type::Tuple(vec![
        Type::Rigid {
            id: RigidId(0),
            name: "a".into(),
        },
        Type::Rigid {
            id: RigidId(1),
            name: "b".into(),
        },
    ]);
    let (e, f) = render_type_pair_with(&signature, &Type::Var(TyVid(9)), &vec![]);
    assert_eq!(e, "(a, b)");
    assert_eq!(f, "c");
}

#[test]
fn render_pair_shares_variable_letters() {
    // A variable shared by both halves of a mismatch reads as one letter in
    // each; a half-only variable takes the next free one.
    let expected = Type::Tuple(vec![Type::Var(TyVid(100)), Type::Var(TyVid(200))]);
    let found = Type::Var(TyVid(200));
    let (e, f) = render_type_pair_with(&expected, &found, &vec![]);
    assert_eq!(e, "(a, b)");
    assert_eq!(f, "b");
}

#[test]
fn render_depth_is_bounded() {
    // Nest tuples past the depth cap; the inner type collapses to `…`.
    let mut t = Type::Var(TyVid(0));
    for _ in 0..8 {
        t = Type::Tuple(vec![t]);
    }
    assert!(
        render_type_with(&t, &vec![]).contains('…'),
        "deeply nested type must truncate"
    );
}

#[test]
fn binary_join_keeps_its_natural_name() {
    // A two-table LeftJoin is already flat; it renders by its own name.
    let t = join3(5, leaf(0), leaf(1), leaf(8)); // LeftJoin User Post Mem
    assert_eq!(
        render_type_with(&t, &join_tycons()),
        "LeftJoin User Post Mem"
    );
}

#[test]
fn inner_composite_flattens_to_table_list() {
    // Joined (Query User Mem) Post Mem — two-table inner join via composite.
    let base = query(leaf(0), leaf(8));
    let t = join3(4, base, leaf(1), leaf(8));
    assert_eq!(
        render_type_with(&t, &join_tycons()),
        "Join (User, Post) Mem"
    );
}

#[test]
fn three_table_inner_composite_flattens() {
    // Joined (Joined (Query User Mem) Post Mem) Comment Mem — three tables.
    let base = query(leaf(0), leaf(8));
    let mid = join3(4, base, leaf(1), leaf(8));
    let t = join3(4, mid, leaf(2), leaf(8));
    assert_eq!(
        render_type_with(&t, &join_tycons()),
        "Join (User, Post, Comment) Mem"
    );
}

#[test]
fn left_joined_leaf_renders_optional() {
    // LeftJoined (Joined (Query User Mem) Post Mem) Comment Mem
    // — the new table (Comment) may be absent.
    let base = query(leaf(0), leaf(8));
    let mid = join3(4, base, leaf(1), leaf(8));
    let t = join3(6, mid, leaf(2), leaf(8));
    assert_eq!(
        render_type_with(&t, &join_tycons()),
        "Join (User, Post, Option Comment) Mem"
    );
}

#[test]
fn right_joined_makes_the_accumulated_side_optional() {
    // RightJoined (Joined (Query User Mem) Post Mem) Comment Mem
    // — the whole left side becomes optional, the newly joined table stays.
    let base = query(leaf(0), leaf(8));
    let mid = join3(4, base, leaf(1), leaf(8));
    let t = join3(7, mid, leaf(2), leaf(8));
    assert_eq!(
        render_type_with(&t, &join_tycons()),
        "Join (Option User, Option Post, Comment) Mem"
    );
}

#[test]
fn display_t001_typemismatch() {
    let err = TypeError::TypeMismatch {
        expected: desc("Int"),
        found: desc("Text"),
        span: sp(),
        hint: None,
    };
    let s = err.render(&vec![]);
    assert!(s.contains("T001"), "should contain code: {s}");
    assert!(s.contains("Int"), "should contain expected type: {s}");
    assert!(s.contains("Text"), "should contain found type: {s}");
    assert!(s.contains("expected"), "should contain 'expected': {s}");
    assert!(s.contains("got"), "should contain 'got': {s}");
}

#[test]
fn display_t003_names_the_callee() {
    let err = TypeError::ArityMismatch {
        callee: "add".into(),
        expected: 2,
        found: 3,
        span: sp(),
        hint: None,
    };
    let s = err.render(&vec![]);
    assert!(s.contains("`add` expects 2 arguments, got 3"), "{s}");
}

/// An annotation mismatch and a lambda applied in place have no name to
/// print, and an empty pair of backticks would read as a name that was lost.
#[test]
fn display_t003_without_a_callee_drops_the_backticks() {
    let err = TypeError::ArityMismatch {
        callee: String::new(),
        expected: 1,
        found: 2,
        span: sp(),
        hint: None,
    };
    let s = err.render(&vec![]);
    assert!(s.contains("expects 1 argument, got 2"), "{s}");
    assert!(!s.contains("``"), "empty backticks must not survive: {s}");
}

/// The wording deliberately does not mention arguments. `takesPair (1, 2, 3)`
/// passes one argument, and calling it an arity mismatch sent the reader
/// looking for a fourth argument nobody wrote.
#[test]
fn display_t057_speaks_about_components_not_arguments() {
    let err = TypeError::TupleWidthMismatch {
        expected: 2,
        found: 3,
        span: sp(),
    };
    let s = err.render(&vec![]);
    assert!(s.contains("T057"), "{s}");
    assert!(
        s.contains("this tuple has 3 components, but 2 are expected"),
        "{s}"
    );
    assert!(!s.contains("argument"), "not an argument count: {s}");
}

/// Both counts can be one, and the sentence has to survive it.
#[test]
fn display_t057_agrees_in_number() {
    let one = TypeError::TupleWidthMismatch {
        expected: 1,
        found: 1,
        span: sp(),
    }
    .render(&vec![]);
    assert!(one.contains("has 1 component, but 1 is expected"), "{one}");
}

#[test]
fn display_t014_capabilitynotdeclared_matches_spec() {
    let declared = caps(&["io"]);
    let missing = caps(&["fs"]);
    let inferred = caps(&["io", "fs"]);
    let err = TypeError::CapabilityNotDeclared {
        decl: "procesarConfig".into(),
        kind: CapDeclKind::Fn,
        declared,
        inferred,
        missing,
        span: sp(),
    };
    let s = err.render(&vec![]);
    assert!(s.contains("T014"), "code: {s}");
    assert!(s.contains("procesarConfig"), "decl name: {s}");
    assert!(s.contains("fn {io}"), "declared caps: {s}");
    assert!(s.contains("{fs}"), "missing caps: {s}");
    // Bare names, no braces: that is what a declaration accepts.
    assert!(
        s.contains("`fn io fs procesarConfig`"),
        "suggestion must be written as a declaration: {s}"
    );
    assert!(s.contains("Options:"), "options header: {s}");
    assert!(s.contains("Add"), "add option: {s}");
    assert!(s.contains("Remove"), "remove option: {s}");
}

/// The same error speaks in the declaration's own syntax for actor
/// members and inner fns.
#[test]
fn display_t014_decl_kinds() {
    let base = |kind: CapDeclKind, decl: &str| TypeError::CapabilityNotDeclared {
        decl: decl.into(),
        kind,
        declared: caps(&[]),
        inferred: caps(&["io"]),
        missing: caps(&["io"]),
        span: sp(),
    };

    let handler = base(CapDeclKind::Handler, "increment").render(&vec![]);
    assert!(
        handler.contains("handler `increment`"),
        "handler: {handler}"
    );
    // The suggestion is written the way a declaration is written.
    assert!(handler.contains("on io increment"), "handler: {handler}");
    assert!(
        !handler.contains("on {io}"),
        "the suggestion must not carry set braces: {handler}"
    );
    // The prose above it keeps set notation, which reads correctly there.
    assert!(
        handler.contains("uses capability `{io}`"),
        "handler: {handler}"
    );

    let init = base(CapDeclKind::Init, "init").render(&vec![]);
    assert!(init.contains("init block"), "init: {init}");
    assert!(init.contains("`init io`"), "init: {init}");
    assert!(
        !init.contains("`init {io}`"),
        "the suggestion must not carry set braces: {init}"
    );

    let inner = base(CapDeclKind::InnerFn, "helper").render(&vec![]);
    assert!(inner.contains("inner function `helper`"), "inner: {inner}");
    assert!(
        inner.contains("enclosing signature"),
        "inner points at the enclosing decl: {inner}"
    );
}

#[test]
fn display_t016_nonexhaustivematch_with_witnesses() {
    let err = TypeError::NonExhaustiveMatch {
        scrutinee_ty: desc("Shape"),
        witnesses: vec![
            "Circle _".into(),
            "Triangle _ _ _".into(),
            "Rectangle _ _".into(),
        ],
        total_missing: 3,
        span: sp(),
    };
    let s = err.render(&vec![]);
    assert!(s.contains("T016"), "code: {s}");
    assert!(s.contains("Shape"), "scrutinee type: {s}");
    assert!(s.contains("Missing cases:"), "header: {s}");
    assert!(s.contains("Circle _"), "first witness: {s}");
    assert!(s.contains("Triangle _ _ _"), "second witness: {s}");
    assert!(s.contains("Rectangle _ _"), "third witness: {s}");
    // No truncation — total_missing == witnesses.len()
    assert!(!s.contains("more"), "should not truncate: {s}");
}

#[test]
fn display_t016_nonexhaustivematch_truncated() {
    let err = TypeError::NonExhaustiveMatch {
        scrutinee_ty: desc("Color"),
        witnesses: vec!["Red".into(), "Green".into(), "Blue".into()],
        // 8 total missing, 3 shown → "and 5 more"
        total_missing: 8,
        span: sp(),
    };
    let s = err.render(&vec![]);
    assert!(s.contains("T016"), "code: {s}");
    assert!(s.contains("Missing cases:"), "header: {s}");
    assert!(s.contains("Red"), "first witness: {s}");
    assert!(s.contains("... and 5 more"), "truncation suffix: {s}");
}

#[test]
fn display_t015_unknownactorhandler_with_didyoumean() {
    let err = TypeError::UnknownActorHandler {
        actor: "Counter".into(),
        handler: "incremento".into(),
        suggestions: vec!["increment".into()],
        span: sp(),
    };
    let s = err.render(&vec![]);
    assert!(s.contains("T015"), "code: {s}");
    assert!(s.contains("incremento"), "handler name: {s}");
    assert!(s.contains("Counter"), "actor name: {s}");
    assert!(s.contains("did you mean: increment?"), "suggestion: {s}");
}

#[test]
fn display_t005_unknownfield_with_didyoumean() {
    let err = TypeError::UnknownField {
        record: "User".into(),
        field: "nme".into(),
        suggestions: vec!["name".into()],
        span: sp(),
    };
    let s = err.render(&vec![]);
    assert!(s.contains("T005"), "code: {s}");
    assert!(s.contains("nme"), "field name: {s}");
    assert!(s.contains("User"), "record name: {s}");
    assert!(s.contains("did you mean: name?"), "suggestion: {s}");
}

#[test]
fn severity_warnings_correct() {
    let warn_t017 = TypeError::RedundantPattern {
        arm_index: 0,
        span: sp(),
    };
    let warn_t022 = TypeError::DiscardedResult {
        ty: desc("Result Unit Err"),
        span: sp(),
    };
    let err_t001 = TypeError::TypeMismatch {
        expected: desc("Int"),
        found: desc("Text"),
        span: sp(),
        hint: None,
    };

    assert_eq!(
        warn_t017.severity(),
        Severity::Warning,
        "T017 should be Warning"
    );
    assert_eq!(
        warn_t022.severity(),
        Severity::Warning,
        "T022 should be Warning"
    );
    assert_eq!(
        err_t001.severity(),
        Severity::Error,
        "T001 should be Error"
    );
}

/// An error has a code, a place and a severity.
#[test]
fn has_error_code_trait_impls_compile() {
    let err = TypeError::TypeMismatch {
        expected: desc("Int"),
        found: desc("Text"),
        span: sp(),
        hint: None,
    };
    assert_eq!(err.code(), "T001");
    assert_eq!(err.span(), sp());
    assert_eq!(err.severity(), Severity::Error);
}

/// The list reaches every code the enum can answer with.
#[test]
fn one_of_each_reaches_every_code() {
    let mut seen: Vec<&'static str> = one_of_each().iter().map(|e| e.code()).collect();
    seen.sort_unstable();
    seen.dedup();
    assert_eq!(seen.len(), 58, "codes reached: {seen:?}");
}

/// One code, one variant.
///
/// Two failures behind one number would leave the reader of a message, or of its
/// explanation, without a way to tell which half was meant.
#[test]
fn no_two_variants_answer_with_the_same_code() {

    let all = one_of_each();
    let mut variants_per_code: std::collections::HashMap<&'static str, Vec<_>> = std::collections::HashMap::new();
    for e in &all {
        let claimants = variants_per_code.entry(e.code()).or_default();
        let d = std::mem::discriminant(e);
        if !claimants.contains(&d) {
            claimants.push(d);
        }
    }

    let shared: Vec<&str> = variants_per_code
        .iter()
        .filter(|(_, claimants)| claimants.len() > 1)
        .map(|(code, _)| *code)
        .collect();
    assert!(shared.is_empty(), "claimed by two variants: {shared:?}");
}

/// A message opens with the code its variant declares.
#[test]
fn every_message_opens_with_the_code_its_variant_declares() {
    for e in one_of_each() {
        let text = e.render(&vec![]);
        let want = format!("{}: ", e.code());
        assert!(text.starts_with(&want), "expected `{want}`, got: {text}");
    }
}

/// No message says a code twice.
#[test]
fn no_message_repeats_the_code_the_frame_already_wrote() {
    for e in one_of_each() {
        let text = e.render(&vec![]);
        let rest = text
            .strip_prefix(&format!("{}: ", e.code()))
            .unwrap_or(&text);
        let first_word = rest.split_whitespace().next().unwrap_or_default();
        assert!(
            !looks_like_a_code(first_word),
            "`{}` writes a code into its own message: {text}",
            e.code()
        );
    }
}

#[test]
fn letters_differ_and_stay() {
    let mut namer = VarNamer::reserving(vec!["a".to_string(), "c".to_string()]);
    assert_eq!(namer.name(40), "b");
    assert_eq!(namer.name(12), "d");
    assert_eq!(namer.name(40), "b");
    assert_eq!(namer.rigid("elem"), "elem");
    assert!(!namer.met_no_rigid());
    assert_eq!(namer.into_rigids(), vec!["elem".to_string()]);
}

#[test]
fn the_letters_after_the_alphabet() {
    assert_eq!(render_var(51), "z1");
    assert_eq!(render_var(52), "a2");
    assert_eq!(render_var(26 * 11 + 3), "d11");
}

#[test]
fn the_shapes_of_types() {
    let ts = vec![tc(0, "Int"), tc(1, "List")];
    let int = || Type::Con(TyConId(0), vec![]);
    let list = |t: Type| Type::Con(TyConId(1), vec![t]);
    assert_eq!(render_type_with(&list(int()), &ts), "List Int");
    assert_eq!(render_type_with(&Type::Con(TyConId(7), vec![]), &ts), "?7");
    let caps = ridge_typecheck::types::CapRow::Concrete(
        ridge_typecheck::types::CapabilitySet::pure(),
    );
    let f = Type::Fn { params: vec![int(), list(int())], ret: Box::new(int()), caps };
    assert_eq!(render_type_with(&f, &ts), "(Int, List Int) -> Int");
    let open = |fields: Vec<(String, Type)>| Type::Record { fields, tail: RowTail::Open(RowVid(0)) };
    let closed = |fields: Vec<(String, Type)>| Type::Record { fields, tail: RowTail::Closed };
    let age = || vec![("age".to_string(), int())];
    assert_eq!(render_type_with(&open(age()), &ts), "{ age: Int, .. }");
    assert_eq!(render_type_with(&open(vec![]), &ts), "{ .. }");
    assert_eq!(render_type_with(&closed(age()), &ts), "{ age: Int }");
    assert_eq!(render_type_with(&closed(vec![]), &ts), "{}");
    assert_eq!(render_type_with(&Type::Error, &ts), "Error");
}

#[test]
fn an_occurs_pair_shares_its_letters() {
    let ts = vec![tc(0, "List")];
    let v = Type::Var(TyVid(31));
    let t = Type::Con(TyConId(0), vec![Type::Var(TyVid(31))]);
    let (var, ty) = render_occurs_pair(&v, &t, &ts);
    assert_eq!(var, "a");
    assert_eq!(ty, "List a");
}

#[test]
fn only_a_users_own_type_can_be_extended() {
    let mut own = tc(0, "Color");
    own.def_module_raw = Some(2);
    let ts = vec![own, tc(1, "Int")];
    assert!(user_can_extend_tycon(TyConId(0), &ts));
    assert!(!user_can_extend_tycon(TyConId(1), &ts));
    assert!(!user_can_extend_tycon(TyConId(9), &ts));
    assert!(user_can_extend(&Type::Con(TyConId(0), vec![]), &ts));
    assert!(!user_can_extend(&Type::Tuple(vec![]), &ts));
    assert_eq!(
        no_instance_hint("ToText", "Color", true),
        "add `deriving (ToText)` to `Color` where it is declared, or write `instance ToText Color`"
    );
    assert!(no_instance_hint("ToText", "Int", false)
        .ends_with("an `instance ToText Int` here would be an orphan (T031)"));
}

#[test]
fn an_internal_error_is_reported_and_types_as_an_error() {
    let mut ctx = InferCtx::new();
    let t = emit_internal(&mut ctx, "no rule".to_string(), Span::new(3, 4));
    assert!(matches!(t, Type::Error));
    let t = emit_internal_strict(&mut ctx, "no rule".to_string(), Span::new(5, 6));
    assert!(matches!(t, Type::Error));
    assert_eq!(ctx.errors.len(), 2);
    assert_eq!(ctx.errors[0].code(), "T999");
    assert_eq!(ctx.errors[1].span(), Span::new(5, 6));
}

#[test]
fn the_parts_of_messages() {
    assert_eq!(arity_subject("add"), "`add` expects");
    assert_eq!(arity_subject(""), "expects");
    assert_eq!(tuple_width_sentence(2, 3), "this tuple has 3 components, but 2 are expected");
    let words = |ws: &[&str]| -> Vec<String> { ws.iter().map(|w| (*w).to_owned()).collect() };
    assert_eq!(join_or(&words(&[])), "");
    assert_eq!(join_or(&words(&["a"])), "`a`");
    assert_eq!(join_or(&words(&["a", "b"])), "`a` or `b`");
    assert_eq!(join_or(&words(&["a", "b", "c"])), "`a`, `b` or `c`");
}

#[test]
fn the_codes_are_numbered() {
    for e in one_of_each() {
        let code = e.code();
        assert!(looks_like_a_code(code), "{code}");
    }
}

#[test]
fn nothing_is_rendered_below_the_last_depth() {
    for depth in [5u8, 6, 255] {
        let mut namer = VarNamer::new();
        assert_eq!(render_at_depth(&Type::Var(TyVid(0)), &vec![], depth, &mut namer), "…");
    }
}

/// The letters go by the order of the variables, not by their numbers.
#[test]
fn the_text_of_a_type_does_not_depend_on_its_variables() {
    let pair = |a: u32, b: u32| {
        Type::Tuple(vec![Type::Var(TyVid(a)), Type::Var(TyVid(b)), Type::Var(TyVid(a))])
    };
    assert_eq!(render_type_with(&pair(0, 1), &vec![]), "(a, b, a)");
    assert_eq!(render_type_with(&pair(9, 4), &vec![]), "(a, b, a)");
}

#[test]
fn an_orphan_is_sent_home_only_where_it_has_one() {
    let orphan = |legal: &[&str]| TypeError::OrphanInstance {
        class: "ToText".to_string(),
        ty: TypeDesc::Text("Int".to_string()),
        instance_module: "app.main".to_string(),
        legal_modules: legal.iter().map(|m| (*m).to_string()).collect(),
        span: sp(),
    };
    let some = orphan(&["app.shapes", "app.text"]).render(&vec![]);
    assert!(some.contains("must be defined in `app.shapes` or `app.text`; found in `app.main`"));
    let none = orphan(&[]).render(&vec![]);
    assert!(none.starts_with("T031: orphan instance\n  `instance ToText "));
    assert!(!none.contains("must be defined in "), "{none}");
    assert!(none.ends_with("in a type of your own and write the instance for the wrapper"));
}

use vstd::prelude::*;

use crate::names::{Names, VarNamer};
use crate::render::{render_at_depth, render_reserving, rendered, reserving};
use crate::text::{decimal, digit, digits, join, joined, same_text, texts};
use crate::types::{Span, TyConDecl, Type};

verus! {

/// A type in a diagnostic: the type itself, a text, or a fixed phrase.
#[derive(Debug)]
pub enum TypeDesc {
    Ty(Type),
    Text(String),
    Phrase(&'static str),
}

/// The names of the capabilities of a set, in their declared order.
#[derive(Debug)]
pub struct CapList {
    pub names: Vec<String>,
}

/// What kind of declaration lacks a capability.
#[derive(Clone, Copy, Debug, PartialEq, Eq, Structural)]
pub enum CapDeclKind {
    Fn,
    Handler,
    Init,
    Terminate,
    OnDown,
    InnerFn,
}

/// How grave a diagnostic is.
#[derive(Clone, Copy, Debug, PartialEq, Eq, Structural)]
pub enum Severity {
    Error,
    Warning,
}

/// A diagnostic of the type checker.
#[derive(Debug)]
#[allow(inconsistent_fields)]
pub enum TypeError {
    /// T001: type mismatch.
    TypeMismatch { expected: TypeDesc, found: TypeDesc, span: Span, hint: Option<String> },
    /// T002: type mismatch in call to `callee`.
    TypeMismatchInCall { callee: String, arg_index: usize, expected: TypeDesc, found: TypeDesc, span: Span },
    /// T003: arity mismatch.
    ArityMismatch { callee: String, expected: usize, found: usize, span: Span, hint: Option<String> },
    /// T004: missing field in record construction.
    MissingField { record: String, field: String, span: Span },
    /// T005: unknown field `field` on record `record`.
    UnknownField { record: String, field: String, suggestions: Vec<String>, span: Span },
    /// T006: `with` on non-record.
    WithOnNonRecord { ty: TypeDesc, span: Span },
    /// T007: pattern type mismatch.
    PatternTypeMismatch { expected: TypeDesc, pattern: TypeDesc, span: Span },
    /// T009: wrong constructor arity.
    WrongConstructorArity { ctor: String, expected: usize, found: usize, span: Span },
    /// T010: infinite type.
    OccursCheck { var: TypeDesc, ty: TypeDesc, span: Span },
    /// T011: recursive type alias.
    RecursiveTypeAlias { cycle: Vec<String>, span: Span },
    /// T013: `decl` is used at a second type inside its own definition.
    PolymorphicRecursion { decl: String, fix_hint: String, recursive_call_span: Span },
    /// T014: capability not declared.
    CapabilityNotDeclared { decl: String, kind: CapDeclKind, declared: CapList, inferred: CapList, missing: CapList, span: Span },
    /// T015: unknown handler `handler` on actor `actor`.
    UnknownActorHandler { actor: String, handler: String, suggestions: Vec<String>, span: Span },
    /// T016: non-exhaustive match on `scrutinee ty`.
    NonExhaustiveMatch { scrutinee_ty: TypeDesc, witnesses: Vec<String>, total_missing: usize, span: Span },
    /// T017: redundant pattern.
    RedundantPattern { arm_index: usize, span: Span },
    /// T018: caller capability insufficient.
    CallerCapabilityInsufficient { caller: String, callee: String, missing: CapList, span: Span },
    /// T019: actor capability leak.
    ActorCapabilityLeak { actor: String, handler: String, leaking_caps: CapList, span: Span },
    /// T020: send (`!`) on non-actor.
    SendOnNonActor { found_ty: TypeDesc, span: Span },
    /// T021: ask (`?>`) on non-actor.
    AskOnNonActor { found_ty: TypeDesc, span: Span },
    /// T022: discarded result.
    DiscardedResult { ty: TypeDesc, span: Span },
    /// T023: unsolved type variable `var`.
    UnsolvedTypeVariable { var: String, generalisation_site: Span },
    /// T024: capability row variable leaked in `decl`.
    RowVariableLeak { decl: String, span: Span },
    /// T025: spawn arity mismatch.
    SpawnArityMismatch { actor: String, expected: usize, found: usize, span: Span },
    /// T026: ask timeout must be Int.
    AskTimeoutNotInt { found: TypeDesc, span: Span },
    /// T027: `drop oldest` mailbox policy is not yet implemented.
    MailboxPolicyDropOldestNotShipped { actor: String, span: Span },
    /// T028: record pattern is missing fields.
    IncompleteRecordPattern { record: String, missing_fields: Vec<String>, span: Span },
    /// T029: no instance `class ty`.
    NoInstance { class: String, ty: TypeDesc, span: Span, fix_hint: String },
    /// T030: ambiguous constraint.
    AmbiguousConstraint { class: String, ty_var: TypeDesc, span: Span },
    /// T031: orphan instance.
    OrphanInstance { class: String, ty: TypeDesc, instance_module: String, legal_modules: Vec<String>, span: Span },
    /// T032: overlapping instance.
    OverlappingInstance { class: String, ty: TypeDesc, first_span: Span, second_span: Span },
    /// T033: missing superclass instance.
    MissingSuperclassInstance { class: String, ty: TypeDesc, superclass: String, span: Span },
    /// T034: conflicting ToText instances.
    ToTextConflict { ty: TypeDesc, totext_span: Span, auto_promote_span: Span },
    /// T035: superclass cycle detected.
    SuperclassCycle { cycle: Vec<String>, span: Span },
    /// T036: field `field` of opaque type `record` cannot be reached outside its defining module.
    OpaqueFieldAccess { record: String, field: String, span: Span },
    /// T037: record shape mismatch.
    RowMismatch { expected: TypeDesc, found: TypeDesc, missing_fields: Vec<String>, extra_fields: Vec<String>, span: Span },
    /// T038: wrong number of types in instance head.
    InstanceArityMismatch { class: String, expected: usize, found: usize, span: Span },
    /// T039: `column` is not a column of `entity` in this quoted predicate.
    QuoteUnknownColumn { entity: String, column: String, suggestions: Vec<String>, span: Span },
    /// T040: this is not supported inside a quoted predicate.
    QuoteUnsupportedExpr { detail: String, span: Span },
    /// T041: the two sides of this comparison have different types.
    QuoteComparisonMismatch { left: TypeDesc, right: TypeDesc, span: Span },
    /// T042: cannot tell which entity this quoted predicate is about.
    QuoteEntityUnknown { span: Span },
    /// T043: this parameter pattern does not match every value of `ty`.
    RefutablePatternParam { witness: String, ty: TypeDesc, span: Span },
    /// T044: `name` is not a constructor.
    NotAConstructor { name: String, hint: String, span: Span },
    /// T045: unknown variable in functional dependency.
    UnknownFunDepVar { class: String, var: String, span: Span },
    /// T046: conflicting functional dependency.
    ConflictingFunDep { class: String, determining: String, first_span: Span, second_span: Span },
    /// T047: insert expects the insert shape `companion`, not the full entity `entity`.
    InsertShapeFullEntity { entity: String, companion: String, omitted: Vec<String>, span: Span },
    /// T048: invalid `member` callback signature.
    ActorCallbackSignature { member: &'static str, expected: String, found: String, span: Span },
    /// T049: no previous version known for `name@..`.
    UnknownTypeVersion { name: String, ordinal: u32, span: Span },
    /// T050: duplicate `migrate` for `name@..`.
    DuplicateMigration { name: String, ordinal: u32, span: Span },
    /// T051: unsupported instance head for `class`.
    UnsupportedInstanceHead { class: String, reason: String, span: Span },
    /// T052: arithmetic on non-numeric type.
    ArithmeticOnNonNumeric { op: &'static str, found: TypeDesc, span: Span },
    /// T053: `main` must not take parameters.
    MainHasParams { found: usize, span: Span },
    /// T054: field access on non-record.
    FieldAccessOnNonRecord { ty: TypeDesc, field: String, suggestion: Option<String>, span: Span },
    /// T055: missing constraint.
    MissingConstraint { decl: String, class: String, ty_var: TypeDesc, fix_hint: String, span: Span },
    /// T056: unknown type `name`.
    UnknownTypeName { name: String, span: Span, suggestions: Vec<String> },
    /// T057: tuple width mismatch.
    TupleWidthMismatch { expected: usize, found: usize, span: Span },
    /// T058: `?` used outside Result/Option context.
    PropagateOutsideResultOrOption { found_ty: TypeDesc, expected: TypeDesc, span: Span },
    /// T059: `main` cannot report the failure it returns.
    MainErrorNotShowable { ty: TypeDesc, fix_hint: String, decl_site: Option<Span>, span: Span },
    /// T999: internal type error.
    InternalTypeError { detail: String, span: Span },
}

/// The number of a diagnostic.
pub open spec fn number(e: TypeError) -> nat {
    match e {
        TypeError::TypeMismatch { .. } => 1,
        TypeError::TypeMismatchInCall { .. } => 2,
        TypeError::ArityMismatch { .. } => 3,
        TypeError::MissingField { .. } => 4,
        TypeError::UnknownField { .. } => 5,
        TypeError::WithOnNonRecord { .. } => 6,
        TypeError::PatternTypeMismatch { .. } => 7,
        TypeError::WrongConstructorArity { .. } => 9,
        TypeError::OccursCheck { .. } => 10,
        TypeError::RecursiveTypeAlias { .. } => 11,
        TypeError::PolymorphicRecursion { .. } => 13,
        TypeError::CapabilityNotDeclared { .. } => 14,
        TypeError::UnknownActorHandler { .. } => 15,
        TypeError::NonExhaustiveMatch { .. } => 16,
        TypeError::RedundantPattern { .. } => 17,
        TypeError::CallerCapabilityInsufficient { .. } => 18,
        TypeError::ActorCapabilityLeak { .. } => 19,
        TypeError::SendOnNonActor { .. } => 20,
        TypeError::AskOnNonActor { .. } => 21,
        TypeError::DiscardedResult { .. } => 22,
        TypeError::UnsolvedTypeVariable { .. } => 23,
        TypeError::RowVariableLeak { .. } => 24,
        TypeError::SpawnArityMismatch { .. } => 25,
        TypeError::AskTimeoutNotInt { .. } => 26,
        TypeError::MailboxPolicyDropOldestNotShipped { .. } => 27,
        TypeError::IncompleteRecordPattern { .. } => 28,
        TypeError::NoInstance { .. } => 29,
        TypeError::AmbiguousConstraint { .. } => 30,
        TypeError::OrphanInstance { .. } => 31,
        TypeError::OverlappingInstance { .. } => 32,
        TypeError::MissingSuperclassInstance { .. } => 33,
        TypeError::ToTextConflict { .. } => 34,
        TypeError::SuperclassCycle { .. } => 35,
        TypeError::OpaqueFieldAccess { .. } => 36,
        TypeError::RowMismatch { .. } => 37,
        TypeError::InstanceArityMismatch { .. } => 38,
        TypeError::QuoteUnknownColumn { .. } => 39,
        TypeError::QuoteUnsupportedExpr { .. } => 40,
        TypeError::QuoteComparisonMismatch { .. } => 41,
        TypeError::QuoteEntityUnknown { .. } => 42,
        TypeError::RefutablePatternParam { .. } => 43,
        TypeError::NotAConstructor { .. } => 44,
        TypeError::UnknownFunDepVar { .. } => 45,
        TypeError::ConflictingFunDep { .. } => 46,
        TypeError::InsertShapeFullEntity { .. } => 47,
        TypeError::ActorCallbackSignature { .. } => 48,
        TypeError::UnknownTypeVersion { .. } => 49,
        TypeError::DuplicateMigration { .. } => 50,
        TypeError::UnsupportedInstanceHead { .. } => 51,
        TypeError::ArithmeticOnNonNumeric { .. } => 52,
        TypeError::MainHasParams { .. } => 53,
        TypeError::FieldAccessOnNonRecord { .. } => 54,
        TypeError::MissingConstraint { .. } => 55,
        TypeError::UnknownTypeName { .. } => 56,
        TypeError::TupleWidthMismatch { .. } => 57,
        TypeError::PropagateOutsideResultOrOption { .. } => 58,
        TypeError::MainErrorNotShowable { .. } => 59,
        TypeError::InternalTypeError { .. } => 999,
    }
}

/// The code of a diagnostic: `T` and its number in three digits.
pub open spec fn code_text(n: nat) -> Seq<char> {
    seq!['T', digit(n / 100), digit(n / 10 % 10), digit(n % 10)]
}

/// Where a diagnostic points.
pub open spec fn site(e: TypeError) -> Span {
    match e {
        TypeError::TypeMismatch { span, .. } => span,
        TypeError::TypeMismatchInCall { span, .. } => span,
        TypeError::ArityMismatch { span, .. } => span,
        TypeError::MissingField { span, .. } => span,
        TypeError::UnknownField { span, .. } => span,
        TypeError::WithOnNonRecord { span, .. } => span,
        TypeError::PatternTypeMismatch { span, .. } => span,
        TypeError::WrongConstructorArity { span, .. } => span,
        TypeError::OccursCheck { span, .. } => span,
        TypeError::RecursiveTypeAlias { span, .. } => span,
        TypeError::PolymorphicRecursion { recursive_call_span, .. } => recursive_call_span,
        TypeError::CapabilityNotDeclared { span, .. } => span,
        TypeError::UnknownActorHandler { span, .. } => span,
        TypeError::NonExhaustiveMatch { span, .. } => span,
        TypeError::RedundantPattern { span, .. } => span,
        TypeError::CallerCapabilityInsufficient { span, .. } => span,
        TypeError::ActorCapabilityLeak { span, .. } => span,
        TypeError::SendOnNonActor { span, .. } => span,
        TypeError::AskOnNonActor { span, .. } => span,
        TypeError::DiscardedResult { span, .. } => span,
        TypeError::UnsolvedTypeVariable { generalisation_site, .. } => generalisation_site,
        TypeError::RowVariableLeak { span, .. } => span,
        TypeError::SpawnArityMismatch { span, .. } => span,
        TypeError::AskTimeoutNotInt { span, .. } => span,
        TypeError::MailboxPolicyDropOldestNotShipped { span, .. } => span,
        TypeError::IncompleteRecordPattern { span, .. } => span,
        TypeError::NoInstance { span, .. } => span,
        TypeError::AmbiguousConstraint { span, .. } => span,
        TypeError::OrphanInstance { span, .. } => span,
        TypeError::OverlappingInstance { second_span, .. } => second_span,
        TypeError::MissingSuperclassInstance { span, .. } => span,
        TypeError::ToTextConflict { totext_span, .. } => totext_span,
        TypeError::SuperclassCycle { span, .. } => span,
        TypeError::OpaqueFieldAccess { span, .. } => span,
        TypeError::RowMismatch { span, .. } => span,
        TypeError::InstanceArityMismatch { span, .. } => span,
        TypeError::QuoteUnknownColumn { span, .. } => span,
        TypeError::QuoteUnsupportedExpr { span, .. } => span,
        TypeError::QuoteComparisonMismatch { span, .. } => span,
        TypeError::QuoteEntityUnknown { span } => span,
        TypeError::RefutablePatternParam { span, .. } => span,
        TypeError::NotAConstructor { span, .. } => span,
        TypeError::UnknownFunDepVar { span, .. } => span,
        TypeError::ConflictingFunDep { second_span, .. } => second_span,
        TypeError::InsertShapeFullEntity { span, .. } => span,
        TypeError::ActorCallbackSignature { span, .. } => span,
        TypeError::UnknownTypeVersion { span, .. } => span,
        TypeError::DuplicateMigration { span, .. } => span,
        TypeError::UnsupportedInstanceHead { span, .. } => span,
        TypeError::ArithmeticOnNonNumeric { span, .. } => span,
        TypeError::MainHasParams { span, .. } => span,
        TypeError::FieldAccessOnNonRecord { span, .. } => span,
        TypeError::MissingConstraint { span, .. } => span,
        TypeError::UnknownTypeName { span, .. } => span,
        TypeError::TupleWidthMismatch { span, .. } => span,
        TypeError::PropagateOutsideResultOrOption { span, .. } => span,
        TypeError::MainErrorNotShowable { span, .. } => span,
        TypeError::InternalTypeError { span, .. } => span,
    }
}

/// How a diagnostic's description of a type reads, and the names after that.
pub open spec fn desc_text(d: TypeDesc, tycons: Seq<TyConDecl>, n: Names) -> (Seq<char>, Names) {
    match d {
        TypeDesc::Ty(t) => rendered(t@, tycons, 0, n),
        TypeDesc::Text(s) => (s@, n),
        TypeDesc::Phrase(p) => (p@, n),
    }
}

impl TypeDesc {
    /// Renders under a namer that is shared with the rest of the message.
    pub fn render_in(&self, tycons: &Vec<TyConDecl>, namer: &mut VarNamer) -> (r: String)
        requires
            old(namer).wf(),
        ensures
            final(namer).wf(),
            (r@, final(namer)@) == desc_text(*self, tycons@, old(namer)@),
    {
        match self {
            TypeDesc::Ty(t) => render_at_depth(t, tycons, 0, namer),
            TypeDesc::Text(s) => s.clone(),
            TypeDesc::Phrase(p) => (*p).to_owned(),
        }
    }
}

/// A capability set as prose shows it.
pub open spec fn braces(names: Seq<Seq<char>>) -> Seq<char> {
    "{"@ + joined(names, " "@) + "}"@
}

impl CapList {
    /// As prose shows it: the names in braces.
    pub fn in_braces(&self) -> (r: String)
        ensures
            r@ == braces(texts(self.names@)),
    {
        let mut s = "{".to_owned();
        s.append(join(&self.names, " ").as_str());
        s.append("}");
        s
    }

    /// As a declaration writes it: the bare names.
    pub fn as_source(&self) -> (r: String)
        ensures
            r@ == joined(texts(self.names@), " "@),
    {
        join(&self.names, " ")
    }
}

/// How an arity mismatch opens.
pub open spec fn arity_text(callee: Seq<char>) -> Seq<char> {
    if callee.len() == 0 {
        "expects"@
    } else {
        "`"@ + callee + "` expects"@
    }
}

/// How an arity mismatch opens, with a callee that may have no name.
pub fn arity_subject(callee: &str) -> (r: String)
    ensures
        r@ == arity_text(callee@),
{
    if callee.is_empty() {
        "expects".to_owned()
    } else {
        let mut s = "`".to_owned();
        s.append(callee);
        s.append("` expects");
        s
    }
}

/// Each text in backticks.
pub open spec fn ticked(items: Seq<Seq<char>>) -> Seq<Seq<char>> {
    items.map_values(|s: Seq<char>| "`"@ + s + "`"@)
}

/// Texts in backticks with commas between them.
pub open spec fn quoted(items: Seq<Seq<char>>) -> Seq<char> {
    joined(ticked(items), ", "@)
}

fn tick_all(items: &Vec<String>) -> (r: Vec<String>)
    ensures
        texts(r@) == ticked(texts(items@)),
{
    let mut out: Vec<String> = Vec::new();
    let mut i: usize = 0;
    while i < items.len()
        invariant
            i <= items@.len(),
            out@.len() == i,
            forall|k: int| 0 <= k < i ==> (#[trigger] out@[k])@ == "`"@ + items@[k]@ + "`"@,
        decreases items@.len() - i,
    {
        let mut s = "`".to_owned();
        s.append(items[i].as_str());
        s.append("`");
        out.push(s);
        i = i + 1;
    }
    assert(texts(out@) =~= ticked(texts(items@)));
    out
}

fn quoted_list(items: &Vec<String>) -> (r: String)
    ensures
        r@ == quoted(texts(items@)),
{
    let all = tick_all(items);
    join(&all, ", ")
}

/// Texts in backticks as a list of options: commas, and `or` before the last.
pub open spec fn alternatives(items: Seq<Seq<char>>) -> Seq<char> {
    if items.len() == 0 {
        Seq::empty()
    } else if items.len() == 1 {
        ticked(items)[0]
    } else {
        joined(ticked(items).drop_last(), ", "@) + " or "@ + ticked(items).last()
    }
}

/// Names in backticks as a list of options.
pub fn join_or(items: &Vec<String>) -> (r: String)
    ensures
        r@ == alternatives(texts(items@)),
{
    let mut all = tick_all(items);
    let ghost full = all@;
    match all.pop() {
        None => String::new(),
        Some(last) => {
            assert(last@ == ticked(texts(items@)).last());
            if all.len() == 0 {
                last
            } else {
                assert(texts(all@) =~= ticked(texts(items@)).drop_last());
                let mut s = join(&all, ", ");
                s.append(" or ");
                s.append(last.as_str());
                s
            }
        },
    }
}

/// The sentence of a tuple-width mismatch, agreeing in number on both counts.
pub open spec fn width_text(expected: nat, found: nat) -> Seq<char> {
    "this tuple has "@ + digits(found) + " component"@ + (if found == 1 {
        ""@
    } else {
        "s"@
    }) + ", but "@ + digits(expected) + " "@ + (if expected == 1 {
        "is"@
    } else {
        "are"@
    }) + " expected"@
}

/// The sentence of a tuple-width mismatch.
pub fn tuple_width_sentence(expected: usize, found: usize) -> (r: String)
    ensures
        r@ == width_text(expected as nat, found as nat),
{
    let mut s = "this tuple has ".to_owned();
    s.append(decimal(found as u128).as_str());
    s.append(" component");
    s.append(if found == 1 {
        ""
    } else {
        "s"
    });
    s.append(", but ");
    s.append(decimal(expected as u128).as_str());
    s.append(" ");
    s.append(if expected == 1 {
        "is"
    } else {
        "are"
    });
    s.append(" expected");
    s
}

/// A text with every item behind it, each between `pre` and `post`.
pub open spec fn with_each(
    start: Seq<char>,
    items: Seq<Seq<char>>,
    pre: Seq<char>,
    post: Seq<char>,
) -> Seq<char>
    decreases items.len(),
{
    if items.len() == 0 {
        start
    } else {
        with_each(start, items.drop_last(), pre, post) + pre + items.last() + post
    }
}

fn push_each(out: &mut String, items: &Vec<String>, pre: &str, post: &str)
    ensures
        final(out)@ == with_each(old(out)@, texts(items@), pre@, post@),
{
    let mut i: usize = 0;
    let ghost all = texts(items@);
    while i < items.len()
        invariant
            i <= items@.len(),
            all == texts(items@),
            out@ == with_each(old(out)@, all.take(i as int), pre@, post@),
        decreases items@.len() - i,
    {
        out.append(pre);
        out.append(items[i].as_str());
        out.append(post);
        assert(all.take(i + 1).drop_last() =~= all.take(i as int));
        i = i + 1;
    }
    assert(all.take(i as int) =~= all);
}

/// The message of a diagnostic, and the names after it: the code, a colon and
/// what the diagnostic has to say.
pub open spec fn message(e: TypeError, tycons: Seq<TyConDecl>, n: Names) -> (Seq<char>, Names) {
    let s = code_text(number(e)) + ": "@;
    match e {
        TypeError::TypeMismatch { expected, found, hint, .. } => {
            let (expected_text, n) = desc_text(expected, tycons, n);
            let (found_text, n) = desc_text(found, tycons, n);
            let s = s + "type mismatch\n  expected "@ + expected_text + ", got "@ + found_text;
            let s = match hint { Some(h) => s + "\n  hint: "@ + h@, None => s };
            (s, n)
        },
        TypeError::TypeMismatchInCall { callee, arg_index, expected, found, .. } => {
            let (expected_text, n) = desc_text(expected, tycons, n);
            let (found_text, n) = desc_text(found, tycons, n);
            let s = s + "type mismatch in call to `"@ + callee@ + "`\n  argument "@ + digits((arg_index + 1) as nat) + ": expected "@ + expected_text + ", got "@ + found_text;
            (s, n)
        },
        TypeError::ArityMismatch { callee, expected, found, hint, .. } => {
            let s = s + "arity mismatch\n  "@ + arity_text(callee@) + " "@ + digits(expected as nat) + " argument"@ + (if expected == 1 { ""@ } else { "s"@ }) + ", got "@ + digits(found as nat);
            let s = match hint { Some(h) => s + "\n  hint: "@ + h@, None => s };
            (s, n)
        },
        TypeError::MissingField { record, field, .. } => {
            let s = s + "missing field in record construction\n  record `"@ + record@ + "` requires field `"@ + field@ + "`"@;
            (s, n)
        },
        TypeError::UnknownField { record, field, suggestions, .. } => {
            let s = s + "unknown field `"@ + field@ + "` on record `"@ + record@ + "`"@;
            let s = if suggestions@.len() > 0 { s + "\n  did you mean: "@ + suggestions@[0]@ + "?"@ } else { s };
            (s, n)
        },
        TypeError::WithOnNonRecord { ty, .. } => {
            let (ty_text, n) = desc_text(ty, tycons, n);
            let s = s + "`with` on non-record\n  found type `"@ + ty_text + "`"@;
            (s, n)
        },
        TypeError::PatternTypeMismatch { expected, pattern, .. } => {
            let (expected_text, n) = desc_text(expected, tycons, n);
            let (pattern_text, n) = desc_text(pattern, tycons, n);
            let s = s + "pattern type mismatch\n  expected `"@ + expected_text + "`, but pattern implies `"@ + pattern_text + "`"@;
            (s, n)
        },
        TypeError::WrongConstructorArity { ctor, expected, found, .. } => {
            let s = s + "wrong constructor arity\n  `"@ + ctor@ + "` expects "@ + digits(expected as nat) + " argument"@ + (if expected == 1 { ""@ } else { "s"@ }) + ", got "@ + digits(found as nat);
            (s, n)
        },
        TypeError::OccursCheck { var, ty, .. } => {
            let (var_text, n) = desc_text(var, tycons, n);
            let (ty_text, n) = desc_text(ty, tycons, n);
            let s = s + "infinite type\n  "@ + var_text + " would have to contain itself: `"@ + ty_text + "`"@;
            (s, n)
        },
        TypeError::RecursiveTypeAlias { cycle, .. } => {
            let s = s + "recursive type alias\n  cycle: "@ + joined(texts(cycle@), " -> "@);
            (s, n)
        },
        TypeError::PolymorphicRecursion { decl, fix_hint, .. } => {
            let s = s + "`"@ + decl@ + "` is used at a second type inside its own definition\n  that is checked only against a signature that annotates every parameter and the return type\n  fix: "@ + fix_hint@;
            (s, n)
        },
        TypeError::CapabilityNotDeclared { decl, kind, declared, inferred, missing, .. } => {
            let s = match kind {
                CapDeclKind::Fn => s + "capability not declared\n  function `"@ + decl@ + "`"@ + " declared as `fn "@ + braces(texts(declared.names@)) + "` uses capability `"@ + braces(texts(missing.names@)) + "`\n  Options:\n    - Add `"@ + braces(texts(missing.names@)) + "` to the signature: `fn "@ + joined(texts(inferred.names@), " "@) + " "@ + decl@ + "`\n    - Remove the call requiring `"@ + braces(texts(missing.names@)) + "`"@,
                CapDeclKind::Handler => s + "capability not declared\n  handler `"@ + decl@ + "`"@ + " declared as `on "@ + braces(texts(declared.names@)) + "` uses capability `"@ + braces(texts(missing.names@)) + "`\n  Options:\n    - Add `"@ + braces(texts(missing.names@)) + "` to the signature: `on "@ + joined(texts(inferred.names@), " "@) + " "@ + decl@ + "`\n    - Remove the call requiring `"@ + braces(texts(missing.names@)) + "`"@,
                CapDeclKind::Init => s + "capability not declared\n  the init block"@ + " declared as `init "@ + braces(texts(declared.names@)) + "` uses capability `"@ + braces(texts(missing.names@)) + "`\n  Options:\n    - Add `"@ + braces(texts(missing.names@)) + "` to the signature: `init "@ + joined(texts(inferred.names@), " "@) + "`\n    - Remove the call requiring `"@ + braces(texts(missing.names@)) + "`"@,
                CapDeclKind::Terminate => s + "capability not declared\n  the terminate callback"@ + " declared as `terminate "@ + braces(texts(declared.names@)) + "` uses capability `"@ + braces(texts(missing.names@)) + "`\n  Options:\n    - Add `"@ + braces(texts(missing.names@)) + "` to the signature: `terminate "@ + joined(texts(inferred.names@), " "@) + "`\n    - Remove the call requiring `"@ + braces(texts(missing.names@)) + "`"@,
                CapDeclKind::OnDown => s + "capability not declared\n  the onDown handler"@ + " declared as `onDown "@ + braces(texts(declared.names@)) + "` uses capability `"@ + braces(texts(missing.names@)) + "`\n  Options:\n    - Add `"@ + braces(texts(missing.names@)) + "` to the signature: `onDown "@ + joined(texts(inferred.names@), " "@) + "`\n    - Remove the call requiring `"@ + braces(texts(missing.names@)) + "`"@,
                CapDeclKind::InnerFn => s + "capability not declared\n  inner function `"@ + decl@ + "` declares `"@ + braces(texts(inferred.names@)) + "` but the enclosing scope provides only `"@ + braces(texts(declared.names@)) + "`\n  Options:\n    - Add `"@ + braces(texts(missing.names@)) + "` to the enclosing signature\n    - Remove `"@ + braces(texts(missing.names@)) + "` from `"@ + decl@ + "`"@,
            };
            (s, n)
        },
        TypeError::UnknownActorHandler { actor, handler, suggestions, .. } => {
            let s = s + "unknown handler `"@ + handler@ + "` on actor `"@ + actor@ + "`"@;
            let s = if suggestions@.len() > 0 { s + "\n  did you mean: "@ + suggestions@[0]@ + "?"@ } else { s };
            (s, n)
        },
        TypeError::NonExhaustiveMatch { scrutinee_ty, witnesses, total_missing, .. } => {
            let (scrutinee_ty_text, n) = desc_text(scrutinee_ty, tycons, n);
            let s = s + "non-exhaustive match on `"@ + scrutinee_ty_text + "`\n  Missing cases:"@;
            let s = with_each(s, texts(witnesses@), "\n    "@, ""@);
            let s = if total_missing > witnesses@.len() { s + "\n    ... and "@ + digits((total_missing - witnesses@.len()) as nat) + " more"@ } else { s };
            (s, n)
        },
        TypeError::RedundantPattern { arm_index, .. } => {
            let s = s + "redundant pattern\n  arm "@ + digits((arm_index + 1) as nat) + " is unreachable — an earlier arm already covers this case"@;
            (s, n)
        },
        TypeError::CallerCapabilityInsufficient { caller, callee, missing, .. } => {
            let s = s + "caller capability insufficient\n  `"@ + caller@ + "` calls `"@ + callee@ + "` which requires `"@ + braces(texts(missing.names@)) + "`\n  Options:\n    - Add `"@ + braces(texts(missing.names@)) + "` to the signature of `"@ + caller@ + "`\n    - Use a pure alternative to `"@ + callee@ + "`"@;
            (s, n)
        },
        TypeError::ActorCapabilityLeak { actor, handler, leaking_caps, .. } => {
            let s = s + "actor capability leak\n  `"@ + handler@ + "` on actor `"@ + actor@ + "` declares `"@ + braces(texts(leaking_caps.names@)) + "`, which no member of the running actor declares"@;
            (s, n)
        },
        TypeError::SendOnNonActor { found_ty, .. } => {
            let (found_ty_text, n) = desc_text(found_ty, tycons, n);
            let s = s + "send (`!`) on non-actor\n  found type `"@ + found_ty_text + "`, expected an actor Handle"@;
            (s, n)
        },
        TypeError::AskOnNonActor { found_ty, .. } => {
            let (found_ty_text, n) = desc_text(found_ty, tycons, n);
            let s = s + "ask (`?>`) on non-actor\n  found type `"@ + found_ty_text + "`, expected an actor Handle"@;
            (s, n)
        },
        TypeError::DiscardedResult { ty, .. } => {
            let (ty_text, n) = desc_text(ty, tycons, n);
            let s = s + "discarded result\n  expression of type `"@ + ty_text + "` is not bound — use `let _ =` to explicitly discard"@;
            (s, n)
        },
        TypeError::UnsolvedTypeVariable { var, .. } => {
            let s = s + "unsolved type variable `"@ + var@ + "`\n  add a type annotation to resolve the ambiguity"@;
            (s, n)
        },
        TypeError::RowVariableLeak { decl, .. } => {
            let s = s + "capability row variable leaked in `"@ + decl@ + "`\n  add an explicit capability annotation to pin the row"@;
            (s, n)
        },
        TypeError::SpawnArityMismatch { actor, expected, found, .. } => {
            let s = s + "spawn arity mismatch\n  `"@ + actor@ + "` init expects "@ + digits(expected as nat) + " argument"@ + (if expected == 1 { ""@ } else { "s"@ }) + ", got "@ + digits(found as nat);
            (s, n)
        },
        TypeError::AskTimeoutNotInt { found, .. } => {
            let (found_text, n) = desc_text(found, tycons, n);
            let s = s + "ask timeout must be Int\n  expected `Int`, found `"@ + found_text + "`\n  hint: use `?> handler() timeout 1000` (milliseconds) or `timeout never`"@;
            (s, n)
        },
        TypeError::MailboxPolicyDropOldestNotShipped { actor, .. } => {
            let s = s + "`drop oldest` mailbox policy is not yet implemented\n  actor `"@ + actor@ + "` declares `mailbox bounded N drop oldest`\n  hint: use `drop newest` (silently drop the incoming message) or `error` (signal failure to the sender) until `drop oldest` ships"@;
            (s, n)
        },
        TypeError::IncompleteRecordPattern { record, missing_fields, .. } => {
            let s = s + "record pattern is missing fields\n  type `"@ + record@ + "` has fields not covered by this pattern"@;
            let s = with_each(s, texts(missing_fields@), "\n  missing field: `"@, "`"@);
            let s = s + "\n  hint: add the missing field bindings, or add `..` to ignore the rest"@;
            (s, n)
        },
        TypeError::NoInstance { class, ty, fix_hint, .. } => {
            let (ty_text, n) = desc_text(ty, tycons, n);
            let s = s + "no instance `"@ + class@ + " "@ + ty_text + "`\n  "@ + fix_hint@;
            (s, n)
        },
        TypeError::AmbiguousConstraint { class, ty_var, .. } => {
            let (ty_var_text, n) = desc_text(ty_var, tycons, n);
            let s = s + "ambiguous constraint\n  cannot determine which instance of `"@ + class@ + "` to use for the type variable `"@ + ty_var_text + "` here\n  hint: add a type annotation to fix the type variable"@;
            (s, n)
        },
        TypeError::OrphanInstance { class, ty, instance_module, legal_modules, .. } => {
            let (ty_text, n) = desc_text(ty, tycons, n);
            let s = if legal_modules@.len() == 0 { s + "orphan instance\n  `instance "@ + class@ + " "@ + ty_text + "` cannot be written here: `"@ + class@ + "` and `"@ + ty_text + "` are both built in, so no module in this workspace declares either of them\n  hint: wrap `"@ + ty_text + "` in a type of your own and write the instance for the wrapper"@ } else { s + "orphan instance\n  `instance "@ + class@ + " "@ + ty_text + "` must be defined in "@ + alternatives(texts(legal_modules@)) + "; found in `"@ + instance_module@ + "`\n  hint: move the instance to one of those modules"@ };
            (s, n)
        },
        TypeError::OverlappingInstance { class, ty, .. } => {
            let (ty_text, n) = desc_text(ty, tycons, n);
            let s = s + "overlapping instance\n  `instance "@ + class@ + " "@ + ty_text + "` is already defined; only one instance per class/type pair is allowed\n  hint: remove the duplicate instance"@;
            (s, n)
        },
        TypeError::MissingSuperclassInstance { class, ty, superclass, .. } => {
            let (ty_text, n) = desc_text(ty, tycons, n);
            let s = s + "missing superclass instance\n  `"@ + class@ + " "@ + ty_text + "` requires `"@ + superclass@ + " "@ + ty_text + "` but no such instance exists\n  hint: add `instance "@ + superclass@ + " "@ + ty_text + "` or add `"@ + superclass@ + "` to the `deriving` list"@;
            (s, n)
        },
        TypeError::ToTextConflict { ty, .. } => {
            let (ty_text, n) = desc_text(ty, tycons, n);
            let s = s + "conflicting ToText instances\n  `"@ + ty_text + "` already has a ToText instance auto-derived from its `pub fn toText`; remove one (either the `pub fn toText` function or the explicit `instance ToText "@ + ty_text + "`)"@;
            (s, n)
        },
        TypeError::SuperclassCycle { cycle, .. } => {
            let s = s + "superclass cycle detected\n  cycle: "@ + joined(texts(cycle@), " -> "@) + "\n  hint: class hierarchies must be acyclic; remove one of the circular superclass requirements"@;
            (s, n)
        },
        TypeError::OpaqueFieldAccess { record, field, .. } => {
            let s = s + "field `"@ + field@ + "` of opaque type `"@ + record@ + "` cannot be reached outside its defining module\n  hint: call a function the module exports instead of touching the field directly"@;
            (s, n)
        },
        TypeError::RowMismatch { expected, found, missing_fields, extra_fields, .. } => {
            let (expected_text, n) = desc_text(expected, tycons, n);
            let (found_text, n) = desc_text(found, tycons, n);
            let s = s + "record shape mismatch\n  expected `"@ + expected_text + "`, got `"@ + found_text + "`"@;
            let s = if extra_fields@.len() > 0 { s + "\n  unexpected field(s): "@ + joined(texts(extra_fields@), ", "@) } else { s };
            let s = if missing_fields@.len() > 0 { s + "\n  missing field(s): "@ + joined(texts(missing_fields@), ", "@) } else { s };
            (s, n)
        },
        TypeError::InstanceArityMismatch { class, expected, found, .. } => {
            let s = s + "wrong number of types in instance head\n  class `"@ + class@ + "` takes "@ + digits(expected as nat) + " type parameter(s), but the instance head supplies "@ + digits(found as nat) + "\n  hint: give the instance exactly "@ + digits(expected as nat) + " type atom(s), parenthesising applied types like `(List a)`"@;
            (s, n)
        },
        TypeError::QuoteUnknownColumn { entity, column, suggestions, .. } => {
            let s = s + "`"@ + column@ + "` is not a column of `"@ + entity@ + "` in this quoted predicate"@;
            let s = if suggestions@.len() > 0 { s + "\n  did you mean: "@ + joined(texts(suggestions@), ", "@) } else { s };
            (s, n)
        },
        TypeError::QuoteUnsupportedExpr { detail, .. } => {
            let s = s + "this is not supported inside a quoted predicate\n  "@ + detail@ + "\n  hint: a quoted predicate is built from column references, literals, comparisons, and `&&`/`||`"@;
            (s, n)
        },
        TypeError::QuoteComparisonMismatch { left, right, .. } => {
            let (left_text, n) = desc_text(left, tycons, n);
            let (right_text, n) = desc_text(right, tycons, n);
            let s = s + "the two sides of this comparison have different types\n  left is `"@ + left_text + "`, right is `"@ + right_text + "`"@;
            (s, n)
        },
        TypeError::QuoteEntityUnknown { .. } => {
            let s = s + "cannot tell which entity this quoted predicate is about\n  hint: annotate the predicate's parameter, e.g. `fn (u: User) -> u.age >= 18`"@;
            (s, n)
        },
        TypeError::RefutablePatternParam { witness, ty, .. } => {
            let (ty_text, n) = desc_text(ty, tycons, n);
            let s = s + "this parameter pattern does not match every value of `"@ + ty_text + "`\n  it would fail on `"@ + witness@ + "`\n  hint: a function parameter must be irrefutable; destructure in the body with `match`/`let`, or use a single-constructor pattern"@;
            (s, n)
        },
        TypeError::NotAConstructor { name, hint, .. } => {
            let s = s + "`"@ + name@ + "` is not a constructor\n  "@ + hint@;
            (s, n)
        },
        TypeError::UnknownFunDepVar { class, var, .. } => {
            let s = s + "unknown variable in functional dependency\n  `"@ + var@ + "` is not a type parameter of class `"@ + class@ + "`\n  hint: a functional dependency may only mention the class's own type parameters"@;
            (s, n)
        },
        TypeError::ConflictingFunDep { class, determining, .. } => {
            let s = s + "conflicting functional dependency\n  two instances of `"@ + class@ + "` agree on `"@ + determining@ + "` but determine different types, which the class's functional dependency forbids\n  hint: a determining type may map to only one determined type"@;
            (s, n)
        },
        TypeError::InsertShapeFullEntity { entity, companion, omitted, .. } => {
            let s = s + "insert expects the insert shape `"@ + companion@ + "`, not the full entity `"@ + entity@ + "`"@;
            let s = if omitted@.len() > 0 { s + "\n  `"@ + companion@ + "` drops the database-generated column"@ + (if omitted@.len() == 1 { ""@ } else { "s"@ }) + " `"@ + joined(texts(omitted@), "`, `"@) + "`; build a `"@ + companion@ + "` and leave "@ + (if omitted@.len() == 1 { "it"@ } else { "them"@ }) + " to the database"@ } else { s };
            (s, n)
        },
        TypeError::ActorCallbackSignature { member, expected, found, .. } => {
            let s = s + "invalid `"@ + member@ + "` callback signature\n  `"@ + member@ + "` must declare ("@ + expected@ + "), but declares ("@ + found@ + ")"@;
            (s, n)
        },
        TypeError::UnknownTypeVersion { name, ordinal, .. } => {
            let s = s + "no previous version known for `"@ + name@ + "@"@ + digits(ordinal as nat) + "`\n  versioned references resolve against the previous build's snapshot; none records this version"@;
            (s, n)
        },
        TypeError::DuplicateMigration { name, ordinal, .. } => {
            let s = s + "duplicate `migrate` for `"@ + name@ + "@"@ + digits(ordinal as nat) + "`\n  this version edge already has a hook"@;
            (s, n)
        },
        TypeError::UnsupportedInstanceHead { class, reason, .. } => {
            let s = s + "unsupported instance head for `"@ + class@ + "`\n  "@ + reason@;
            (s, n)
        },
        TypeError::ArithmeticOnNonNumeric { op, found, .. } => {
            let (found_text, n) = desc_text(found, tycons, n);
            let s = if found_text == "Text"@ { s + "arithmetic on non-numeric type\n  `"@ + op@ + "` requires `Int` or `Float` operands, found `Text`\n  hint: use `++` to concatenate text"@ } else { s + "arithmetic on non-numeric type\n  `"@ + op@ + "` requires `Int` or `Float` operands, found `"@ + found_text + "`\n  hint: use `++` to concatenate text or lists"@ };
            (s, n)
        },
        TypeError::MainHasParams { found, .. } => {
            let s = s + "`main` must not take parameters\n  `main` is the program entry point and is invoked with no arguments, but declares "@ + digits(found as nat) + " parameter"@ + (if found == 1 { ""@ } else { "s"@ }) + "\n  hint: declare it as `fn main () -> ...`\n  hint: to read command-line arguments, call `Cli.args ()` from `std.cli` — it needs the `env` capability, so write `fn {env} main` and add `\"env\"` to the manifest's `[capabilities] allow`"@;
            (s, n)
        },
        TypeError::FieldAccessOnNonRecord { ty, field, suggestion, .. } => {
            let (ty_text, n) = desc_text(ty, tycons, n);
            let s = s + "field access on non-record\n  `"@ + ty_text + "` has no field `"@ + field@ + "` — it is not a record"@;
            let s = match suggestion { Some(name) => s + "\n  did you mean `"@ + name@ + "`?"@, None => s };
            (s, n)
        },
        TypeError::MissingConstraint { decl, class, ty_var, fix_hint, .. } => {
            let (ty_var_text, n) = desc_text(ty_var, tycons, n);
            let s = s + "missing constraint\n  `"@ + decl@ + "` promises to work for every `"@ + ty_var_text + "`, but its body needs `"@ + class@ + " "@ + ty_var_text + "`\n  fix: "@ + fix_hint@;
            (s, n)
        },
        TypeError::UnknownTypeName { name, suggestions, .. } => {
            let s = s + "unknown type `"@ + name@ + "`\n  "@;
            let s = if suggestions@.len() == 0 { s + "declare it, or import the module that does"@ } else { s + "did you mean "@ + quoted(texts(suggestions@)) + "?"@ };
            (s, n)
        },
        TypeError::TupleWidthMismatch { expected, found, .. } => {
            let s = s + "tuple width mismatch\n  "@ + width_text(expected as nat, found as nat);
            (s, n)
        },
        TypeError::PropagateOutsideResultOrOption { found_ty, expected, .. } => {
            let (found_ty_text, n) = desc_text(found_ty, tycons, n);
            let (expected_text, n) = desc_text(expected, tycons, n);
            let s = s + "`?` used outside Result/Option context\n  found `"@ + found_ty_text + "`, enclosing function returns `"@ + expected_text + "`"@;
            (s, n)
        },
        TypeError::MainErrorNotShowable { ty, fix_hint, .. } => {
            let (ty_text, n) = desc_text(ty, tycons, n);
            let s = s + "`main` cannot report the failure it returns\n  its error type `"@ + ty_text + "` has no `ToText` instance, so a run that ends in `Err` has nothing to print\n  hint: "@ + fix_hint@;
            (s, n)
        },
        TypeError::InternalTypeError { detail, .. } => {
            let s = s + "internal type error\n  "@ + detail@ + "\n  This is a compiler bug. Please report it."@;
            (s, n)
        },
    }
}

impl TypeError {
    /// The code of this diagnostic. No two variants share one.
    pub fn code(&self) -> (r: &'static str)
        ensures
            r@ == code_text(number(*self)),
    {
        let r = match self {
            TypeError::TypeMismatch { .. } => {
                proof {
                    reveal_strlit("T001");
                }
                "T001"
            },
            TypeError::TypeMismatchInCall { .. } => {
                proof {
                    reveal_strlit("T002");
                }
                "T002"
            },
            TypeError::ArityMismatch { .. } => {
                proof {
                    reveal_strlit("T003");
                }
                "T003"
            },
            TypeError::MissingField { .. } => {
                proof {
                    reveal_strlit("T004");
                }
                "T004"
            },
            TypeError::UnknownField { .. } => {
                proof {
                    reveal_strlit("T005");
                }
                "T005"
            },
            TypeError::WithOnNonRecord { .. } => {
                proof {
                    reveal_strlit("T006");
                }
                "T006"
            },
            TypeError::PatternTypeMismatch { .. } => {
                proof {
                    reveal_strlit("T007");
                }
                "T007"
            },
            TypeError::WrongConstructorArity { .. } => {
                proof {
                    reveal_strlit("T009");
                }
                "T009"
            },
            TypeError::OccursCheck { .. } => {
                proof {
                    reveal_strlit("T010");
                }
                "T010"
            },
            TypeError::RecursiveTypeAlias { .. } => {
                proof {
                    reveal_strlit("T011");
                }
                "T011"
            },
            TypeError::PolymorphicRecursion { .. } => {
                proof {
                    reveal_strlit("T013");
                }
                "T013"
            },
            TypeError::CapabilityNotDeclared { .. } => {
                proof {
                    reveal_strlit("T014");
                }
                "T014"
            },
            TypeError::UnknownActorHandler { .. } => {
                proof {
                    reveal_strlit("T015");
                }
                "T015"
            },
            TypeError::NonExhaustiveMatch { .. } => {
                proof {
                    reveal_strlit("T016");
                }
                "T016"
            },
            TypeError::RedundantPattern { .. } => {
                proof {
                    reveal_strlit("T017");
                }
                "T017"
            },
            TypeError::CallerCapabilityInsufficient { .. } => {
                proof {
                    reveal_strlit("T018");
                }
                "T018"
            },
            TypeError::ActorCapabilityLeak { .. } => {
                proof {
                    reveal_strlit("T019");
                }
                "T019"
            },
            TypeError::SendOnNonActor { .. } => {
                proof {
                    reveal_strlit("T020");
                }
                "T020"
            },
            TypeError::AskOnNonActor { .. } => {
                proof {
                    reveal_strlit("T021");
                }
                "T021"
            },
            TypeError::DiscardedResult { .. } => {
                proof {
                    reveal_strlit("T022");
                }
                "T022"
            },
            TypeError::UnsolvedTypeVariable { .. } => {
                proof {
                    reveal_strlit("T023");
                }
                "T023"
            },
            TypeError::RowVariableLeak { .. } => {
                proof {
                    reveal_strlit("T024");
                }
                "T024"
            },
            TypeError::SpawnArityMismatch { .. } => {
                proof {
                    reveal_strlit("T025");
                }
                "T025"
            },
            TypeError::AskTimeoutNotInt { .. } => {
                proof {
                    reveal_strlit("T026");
                }
                "T026"
            },
            TypeError::MailboxPolicyDropOldestNotShipped { .. } => {
                proof {
                    reveal_strlit("T027");
                }
                "T027"
            },
            TypeError::IncompleteRecordPattern { .. } => {
                proof {
                    reveal_strlit("T028");
                }
                "T028"
            },
            TypeError::NoInstance { .. } => {
                proof {
                    reveal_strlit("T029");
                }
                "T029"
            },
            TypeError::AmbiguousConstraint { .. } => {
                proof {
                    reveal_strlit("T030");
                }
                "T030"
            },
            TypeError::OrphanInstance { .. } => {
                proof {
                    reveal_strlit("T031");
                }
                "T031"
            },
            TypeError::OverlappingInstance { .. } => {
                proof {
                    reveal_strlit("T032");
                }
                "T032"
            },
            TypeError::MissingSuperclassInstance { .. } => {
                proof {
                    reveal_strlit("T033");
                }
                "T033"
            },
            TypeError::ToTextConflict { .. } => {
                proof {
                    reveal_strlit("T034");
                }
                "T034"
            },
            TypeError::SuperclassCycle { .. } => {
                proof {
                    reveal_strlit("T035");
                }
                "T035"
            },
            TypeError::OpaqueFieldAccess { .. } => {
                proof {
                    reveal_strlit("T036");
                }
                "T036"
            },
            TypeError::RowMismatch { .. } => {
                proof {
                    reveal_strlit("T037");
                }
                "T037"
            },
            TypeError::InstanceArityMismatch { .. } => {
                proof {
                    reveal_strlit("T038");
                }
                "T038"
            },
            TypeError::QuoteUnknownColumn { .. } => {
                proof {
                    reveal_strlit("T039");
                }
                "T039"
            },
            TypeError::QuoteUnsupportedExpr { .. } => {
                proof {
                    reveal_strlit("T040");
                }
                "T040"
            },
            TypeError::QuoteComparisonMismatch { .. } => {
                proof {
                    reveal_strlit("T041");
                }
                "T041"
            },
            TypeError::QuoteEntityUnknown { .. } => {
                proof {
                    reveal_strlit("T042");
                }
                "T042"
            },
            TypeError::RefutablePatternParam { .. } => {
                proof {
                    reveal_strlit("T043");
                }
                "T043"
            },
            TypeError::NotAConstructor { .. } => {
                proof {
                    reveal_strlit("T044");
                }
                "T044"
            },
            TypeError::UnknownFunDepVar { .. } => {
                proof {
                    reveal_strlit("T045");
                }
                "T045"
            },
            TypeError::ConflictingFunDep { .. } => {
                proof {
                    reveal_strlit("T046");
                }
                "T046"
            },
            TypeError::InsertShapeFullEntity { .. } => {
                proof {
                    reveal_strlit("T047");
                }
                "T047"
            },
            TypeError::ActorCallbackSignature { .. } => {
                proof {
                    reveal_strlit("T048");
                }
                "T048"
            },
            TypeError::UnknownTypeVersion { .. } => {
                proof {
                    reveal_strlit("T049");
                }
                "T049"
            },
            TypeError::DuplicateMigration { .. } => {
                proof {
                    reveal_strlit("T050");
                }
                "T050"
            },
            TypeError::UnsupportedInstanceHead { .. } => {
                proof {
                    reveal_strlit("T051");
                }
                "T051"
            },
            TypeError::ArithmeticOnNonNumeric { .. } => {
                proof {
                    reveal_strlit("T052");
                }
                "T052"
            },
            TypeError::MainHasParams { .. } => {
                proof {
                    reveal_strlit("T053");
                }
                "T053"
            },
            TypeError::FieldAccessOnNonRecord { .. } => {
                proof {
                    reveal_strlit("T054");
                }
                "T054"
            },
            TypeError::MissingConstraint { .. } => {
                proof {
                    reveal_strlit("T055");
                }
                "T055"
            },
            TypeError::UnknownTypeName { .. } => {
                proof {
                    reveal_strlit("T056");
                }
                "T056"
            },
            TypeError::TupleWidthMismatch { .. } => {
                proof {
                    reveal_strlit("T057");
                }
                "T057"
            },
            TypeError::PropagateOutsideResultOrOption { .. } => {
                proof {
                    reveal_strlit("T058");
                }
                "T058"
            },
            TypeError::MainErrorNotShowable { .. } => {
                proof {
                    reveal_strlit("T059");
                }
                "T059"
            },
            TypeError::InternalTypeError { .. } => {
                proof {
                    reveal_strlit("T999");
                }
                "T999"
            },
        };
        assert(r@ =~= code_text(number(*self)));
        r
    }

    /// Where this diagnostic points.
    pub fn span(&self) -> (r: Span)
        ensures
            r == site(*self),
    {
        match self {
            TypeError::TypeMismatch { span, .. } => *span,
            TypeError::TypeMismatchInCall { span, .. } => *span,
            TypeError::ArityMismatch { span, .. } => *span,
            TypeError::MissingField { span, .. } => *span,
            TypeError::UnknownField { span, .. } => *span,
            TypeError::WithOnNonRecord { span, .. } => *span,
            TypeError::PatternTypeMismatch { span, .. } => *span,
            TypeError::WrongConstructorArity { span, .. } => *span,
            TypeError::OccursCheck { span, .. } => *span,
            TypeError::RecursiveTypeAlias { span, .. } => *span,
            TypeError::PolymorphicRecursion { recursive_call_span, .. } => *recursive_call_span,
            TypeError::CapabilityNotDeclared { span, .. } => *span,
            TypeError::UnknownActorHandler { span, .. } => *span,
            TypeError::NonExhaustiveMatch { span, .. } => *span,
            TypeError::RedundantPattern { span, .. } => *span,
            TypeError::CallerCapabilityInsufficient { span, .. } => *span,
            TypeError::ActorCapabilityLeak { span, .. } => *span,
            TypeError::SendOnNonActor { span, .. } => *span,
            TypeError::AskOnNonActor { span, .. } => *span,
            TypeError::DiscardedResult { span, .. } => *span,
            TypeError::UnsolvedTypeVariable { generalisation_site, .. } => *generalisation_site,
            TypeError::RowVariableLeak { span, .. } => *span,
            TypeError::SpawnArityMismatch { span, .. } => *span,
            TypeError::AskTimeoutNotInt { span, .. } => *span,
            TypeError::MailboxPolicyDropOldestNotShipped { span, .. } => *span,
            TypeError::IncompleteRecordPattern { span, .. } => *span,
            TypeError::NoInstance { span, .. } => *span,
            TypeError::AmbiguousConstraint { span, .. } => *span,
            TypeError::OrphanInstance { span, .. } => *span,
            TypeError::OverlappingInstance { second_span, .. } => *second_span,
            TypeError::MissingSuperclassInstance { span, .. } => *span,
            TypeError::ToTextConflict { totext_span, .. } => *totext_span,
            TypeError::SuperclassCycle { span, .. } => *span,
            TypeError::OpaqueFieldAccess { span, .. } => *span,
            TypeError::RowMismatch { span, .. } => *span,
            TypeError::InstanceArityMismatch { span, .. } => *span,
            TypeError::QuoteUnknownColumn { span, .. } => *span,
            TypeError::QuoteUnsupportedExpr { span, .. } => *span,
            TypeError::QuoteComparisonMismatch { span, .. } => *span,
            TypeError::QuoteEntityUnknown { span } => *span,
            TypeError::RefutablePatternParam { span, .. } => *span,
            TypeError::NotAConstructor { span, .. } => *span,
            TypeError::UnknownFunDepVar { span, .. } => *span,
            TypeError::ConflictingFunDep { second_span, .. } => *second_span,
            TypeError::InsertShapeFullEntity { span, .. } => *span,
            TypeError::ActorCallbackSignature { span, .. } => *span,
            TypeError::UnknownTypeVersion { span, .. } => *span,
            TypeError::DuplicateMigration { span, .. } => *span,
            TypeError::UnsupportedInstanceHead { span, .. } => *span,
            TypeError::ArithmeticOnNonNumeric { span, .. } => *span,
            TypeError::MainHasParams { span, .. } => *span,
            TypeError::FieldAccessOnNonRecord { span, .. } => *span,
            TypeError::MissingConstraint { span, .. } => *span,
            TypeError::UnknownTypeName { span, .. } => *span,
            TypeError::TupleWidthMismatch { span, .. } => *span,
            TypeError::PropagateOutsideResultOrOption { span, .. } => *span,
            TypeError::MainErrorNotShowable { span, .. } => *span,
            TypeError::InternalTypeError { span, .. } => *span,
        }
    }

    /// Only an unreachable arm and a discarded result are warnings.
    pub fn severity(&self) -> (r: Severity)
        ensures
            r == (if *self is RedundantPattern || *self is DiscardedResult {
                Severity::Warning
            } else {
                Severity::Error
            }),
    {
        match self {
            TypeError::RedundantPattern { .. } => Severity::Warning,
            TypeError::DiscardedResult { .. } => Severity::Warning,
            _ => Severity::Error,
        }
    }

    /// Writes the message under the given namer.
    #[verifier::rlimit(100)]
    pub fn write_message(&self, tycons: &Vec<TyConDecl>, namer: &mut VarNamer) -> (r: String)
        requires
            old(namer).wf(),
        ensures
            final(namer).wf(),
            (r@, final(namer)@) == message(*self, tycons@, old(namer)@),
    {
        let mut out = self.code().to_owned();
        out.append(": ");
        match self {
            TypeError::TypeMismatch { expected, found, hint, .. } => {
                let expected_text = expected.render_in(tycons, namer);
                let found_text = found.render_in(tycons, namer);
                out.append("type mismatch\n  expected ");
                out.append(expected_text.as_str());
                out.append(", got ");
                out.append(found_text.as_str());
                if let Some(h) = hint {
                    out.append("\n  hint: ");
                    out.append(h.as_str());
                }
            },
            TypeError::TypeMismatchInCall { callee, arg_index, expected, found, .. } => {
                let expected_text = expected.render_in(tycons, namer);
                let found_text = found.render_in(tycons, namer);
                out.append("type mismatch in call to `");
                out.append(callee.as_str());
                out.append("`\n  argument ");
                out.append(decimal(*arg_index as u128 + 1).as_str());
                out.append(": expected ");
                out.append(expected_text.as_str());
                out.append(", got ");
                out.append(found_text.as_str());
            },
            TypeError::ArityMismatch { callee, expected, found, hint, .. } => {
                out.append("arity mismatch\n  ");
                out.append(arity_subject(callee.as_str()).as_str());
                out.append(" ");
                out.append(decimal(*expected as u128).as_str());
                out.append(" argument");
                out.append(if *expected == 1 {
                    ""
                } else {
                    "s"
                });
                out.append(", got ");
                out.append(decimal(*found as u128).as_str());
                if let Some(h) = hint {
                    out.append("\n  hint: ");
                    out.append(h.as_str());
                }
            },
            TypeError::MissingField { record, field, .. } => {
                out.append("missing field in record construction\n  record `");
                out.append(record.as_str());
                out.append("` requires field `");
                out.append(field.as_str());
                out.append("`");
            },
            TypeError::UnknownField { record, field, suggestions, .. } => {
                out.append("unknown field `");
                out.append(field.as_str());
                out.append("` on record `");
                out.append(record.as_str());
                out.append("`");
                if suggestions.len() > 0 {
                    out.append("\n  did you mean: ");
                    out.append(suggestions[0].as_str());
                    out.append("?");
                }
            },
            TypeError::WithOnNonRecord { ty, .. } => {
                let ty_text = ty.render_in(tycons, namer);
                out.append("`with` on non-record\n  found type `");
                out.append(ty_text.as_str());
                out.append("`");
            },
            TypeError::PatternTypeMismatch { expected, pattern, .. } => {
                let expected_text = expected.render_in(tycons, namer);
                let pattern_text = pattern.render_in(tycons, namer);
                out.append("pattern type mismatch\n  expected `");
                out.append(expected_text.as_str());
                out.append("`, but pattern implies `");
                out.append(pattern_text.as_str());
                out.append("`");
            },
            TypeError::WrongConstructorArity { ctor, expected, found, .. } => {
                out.append("wrong constructor arity\n  `");
                out.append(ctor.as_str());
                out.append("` expects ");
                out.append(decimal(*expected as u128).as_str());
                out.append(" argument");
                out.append(if *expected == 1 {
                    ""
                } else {
                    "s"
                });
                out.append(", got ");
                out.append(decimal(*found as u128).as_str());
            },
            TypeError::OccursCheck { var, ty, .. } => {
                let var_text = var.render_in(tycons, namer);
                let ty_text = ty.render_in(tycons, namer);
                out.append("infinite type\n  ");
                out.append(var_text.as_str());
                out.append(" would have to contain itself: `");
                out.append(ty_text.as_str());
                out.append("`");
            },
            TypeError::RecursiveTypeAlias { cycle, .. } => {
                out.append("recursive type alias\n  cycle: ");
                out.append(join(cycle, " -> ").as_str());
            },
            TypeError::PolymorphicRecursion { decl, fix_hint, .. } => {
                out.append("`");
                out.append(decl.as_str());
                out.append("` is used at a second type inside its own definition\n  that is checked only against a signature that annotates every parameter and the return type\n  fix: ");
                out.append(fix_hint.as_str());
            },
            TypeError::CapabilityNotDeclared { decl, kind, declared, inferred, missing, .. } => {
                match kind {
                    CapDeclKind::Fn => {
                        out.append("capability not declared\n  function `");
                        out.append(decl.as_str());
                        out.append("`");
                        out.append(" declared as `fn ");
                        out.append(declared.in_braces().as_str());
                        out.append("` uses capability `");
                        out.append(missing.in_braces().as_str());
                        out.append("`\n  Options:\n    - Add `");
                        out.append(missing.in_braces().as_str());
                        out.append("` to the signature: `fn ");
                        out.append(inferred.as_source().as_str());
                        out.append(" ");
                        out.append(decl.as_str());
                        out.append("`\n    - Remove the call requiring `");
                        out.append(missing.in_braces().as_str());
                        out.append("`");
                    },
                    CapDeclKind::Handler => {
                        out.append("capability not declared\n  handler `");
                        out.append(decl.as_str());
                        out.append("`");
                        out.append(" declared as `on ");
                        out.append(declared.in_braces().as_str());
                        out.append("` uses capability `");
                        out.append(missing.in_braces().as_str());
                        out.append("`\n  Options:\n    - Add `");
                        out.append(missing.in_braces().as_str());
                        out.append("` to the signature: `on ");
                        out.append(inferred.as_source().as_str());
                        out.append(" ");
                        out.append(decl.as_str());
                        out.append("`\n    - Remove the call requiring `");
                        out.append(missing.in_braces().as_str());
                        out.append("`");
                    },
                    CapDeclKind::Init => {
                        out.append("capability not declared\n  the init block");
                        out.append(" declared as `init ");
                        out.append(declared.in_braces().as_str());
                        out.append("` uses capability `");
                        out.append(missing.in_braces().as_str());
                        out.append("`\n  Options:\n    - Add `");
                        out.append(missing.in_braces().as_str());
                        out.append("` to the signature: `init ");
                        out.append(inferred.as_source().as_str());
                        out.append("`\n    - Remove the call requiring `");
                        out.append(missing.in_braces().as_str());
                        out.append("`");
                    },
                    CapDeclKind::Terminate => {
                        out.append("capability not declared\n  the terminate callback");
                        out.append(" declared as `terminate ");
                        out.append(declared.in_braces().as_str());
                        out.append("` uses capability `");
                        out.append(missing.in_braces().as_str());
                        out.append("`\n  Options:\n    - Add `");
                        out.append(missing.in_braces().as_str());
                        out.append("` to the signature: `terminate ");
                        out.append(inferred.as_source().as_str());
                        out.append("`\n    - Remove the call requiring `");
                        out.append(missing.in_braces().as_str());
                        out.append("`");
                    },
                    CapDeclKind::OnDown => {
                        out.append("capability not declared\n  the onDown handler");
                        out.append(" declared as `onDown ");
                        out.append(declared.in_braces().as_str());
                        out.append("` uses capability `");
                        out.append(missing.in_braces().as_str());
                        out.append("`\n  Options:\n    - Add `");
                        out.append(missing.in_braces().as_str());
                        out.append("` to the signature: `onDown ");
                        out.append(inferred.as_source().as_str());
                        out.append("`\n    - Remove the call requiring `");
                        out.append(missing.in_braces().as_str());
                        out.append("`");
                    },
                    CapDeclKind::InnerFn => {
                        out.append("capability not declared\n  inner function `");
                        out.append(decl.as_str());
                        out.append("` declares `");
                        out.append(inferred.in_braces().as_str());
                        out.append("` but the enclosing scope provides only `");
                        out.append(declared.in_braces().as_str());
                        out.append("`\n  Options:\n    - Add `");
                        out.append(missing.in_braces().as_str());
                        out.append("` to the enclosing signature\n    - Remove `");
                        out.append(missing.in_braces().as_str());
                        out.append("` from `");
                        out.append(decl.as_str());
                        out.append("`");
                    },
                }
            },
            TypeError::UnknownActorHandler { actor, handler, suggestions, .. } => {
                out.append("unknown handler `");
                out.append(handler.as_str());
                out.append("` on actor `");
                out.append(actor.as_str());
                out.append("`");
                if suggestions.len() > 0 {
                    out.append("\n  did you mean: ");
                    out.append(suggestions[0].as_str());
                    out.append("?");
                }
            },
            TypeError::NonExhaustiveMatch { scrutinee_ty, witnesses, total_missing, .. } => {
                let scrutinee_ty_text = scrutinee_ty.render_in(tycons, namer);
                out.append("non-exhaustive match on `");
                out.append(scrutinee_ty_text.as_str());
                out.append("`\n  Missing cases:");
                push_each(&mut out, witnesses, "\n    ", "");
                if *total_missing > witnesses.len() {
                    out.append("\n    ... and ");
                    out.append(decimal((*total_missing - witnesses.len()) as u128).as_str());
                    out.append(" more");
                }
            },
            TypeError::RedundantPattern { arm_index, .. } => {
                out.append("redundant pattern\n  arm ");
                out.append(decimal(*arm_index as u128 + 1).as_str());
                out.append(" is unreachable — an earlier arm already covers this case");
            },
            TypeError::CallerCapabilityInsufficient { caller, callee, missing, .. } => {
                out.append("caller capability insufficient\n  `");
                out.append(caller.as_str());
                out.append("` calls `");
                out.append(callee.as_str());
                out.append("` which requires `");
                out.append(missing.in_braces().as_str());
                out.append("`\n  Options:\n    - Add `");
                out.append(missing.in_braces().as_str());
                out.append("` to the signature of `");
                out.append(caller.as_str());
                out.append("`\n    - Use a pure alternative to `");
                out.append(callee.as_str());
                out.append("`");
            },
            TypeError::ActorCapabilityLeak { actor, handler, leaking_caps, .. } => {
                out.append("actor capability leak\n  `");
                out.append(handler.as_str());
                out.append("` on actor `");
                out.append(actor.as_str());
                out.append("` declares `");
                out.append(leaking_caps.in_braces().as_str());
                out.append("`, which no member of the running actor declares");
            },
            TypeError::SendOnNonActor { found_ty, .. } => {
                let found_ty_text = found_ty.render_in(tycons, namer);
                out.append("send (`!`) on non-actor\n  found type `");
                out.append(found_ty_text.as_str());
                out.append("`, expected an actor Handle");
            },
            TypeError::AskOnNonActor { found_ty, .. } => {
                let found_ty_text = found_ty.render_in(tycons, namer);
                out.append("ask (`?>`) on non-actor\n  found type `");
                out.append(found_ty_text.as_str());
                out.append("`, expected an actor Handle");
            },
            TypeError::DiscardedResult { ty, .. } => {
                let ty_text = ty.render_in(tycons, namer);
                out.append("discarded result\n  expression of type `");
                out.append(ty_text.as_str());
                out.append("` is not bound — use `let _ =` to explicitly discard");
            },
            TypeError::UnsolvedTypeVariable { var, .. } => {
                out.append("unsolved type variable `");
                out.append(var.as_str());
                out.append("`\n  add a type annotation to resolve the ambiguity");
            },
            TypeError::RowVariableLeak { decl, .. } => {
                out.append("capability row variable leaked in `");
                out.append(decl.as_str());
                out.append("`\n  add an explicit capability annotation to pin the row");
            },
            TypeError::SpawnArityMismatch { actor, expected, found, .. } => {
                out.append("spawn arity mismatch\n  `");
                out.append(actor.as_str());
                out.append("` init expects ");
                out.append(decimal(*expected as u128).as_str());
                out.append(" argument");
                out.append(if *expected == 1 {
                    ""
                } else {
                    "s"
                });
                out.append(", got ");
                out.append(decimal(*found as u128).as_str());
            },
            TypeError::AskTimeoutNotInt { found, .. } => {
                let found_text = found.render_in(tycons, namer);
                out.append("ask timeout must be Int\n  expected `Int`, found `");
                out.append(found_text.as_str());
                out.append("`\n  hint: use `?> handler() timeout 1000` (milliseconds) or `timeout never`");
            },
            TypeError::MailboxPolicyDropOldestNotShipped { actor, .. } => {
                out.append("`drop oldest` mailbox policy is not yet implemented\n  actor `");
                out.append(actor.as_str());
                out.append("` declares `mailbox bounded N drop oldest`\n  hint: use `drop newest` (silently drop the incoming message) or `error` (signal failure to the sender) until `drop oldest` ships");
            },
            TypeError::IncompleteRecordPattern { record, missing_fields, .. } => {
                out.append("record pattern is missing fields\n  type `");
                out.append(record.as_str());
                out.append("` has fields not covered by this pattern");
                push_each(&mut out, missing_fields, "\n  missing field: `", "`");
                out.append("\n  hint: add the missing field bindings, or add `..` to ignore the rest");
            },
            TypeError::NoInstance { class, ty, fix_hint, .. } => {
                let ty_text = ty.render_in(tycons, namer);
                out.append("no instance `");
                out.append(class.as_str());
                out.append(" ");
                out.append(ty_text.as_str());
                out.append("`\n  ");
                out.append(fix_hint.as_str());
            },
            TypeError::AmbiguousConstraint { class, ty_var, .. } => {
                let ty_var_text = ty_var.render_in(tycons, namer);
                out.append("ambiguous constraint\n  cannot determine which instance of `");
                out.append(class.as_str());
                out.append("` to use for the type variable `");
                out.append(ty_var_text.as_str());
                out.append("` here\n  hint: add a type annotation to fix the type variable");
            },
            TypeError::OrphanInstance { class, ty, instance_module, legal_modules, .. } => {
                let ty_text = ty.render_in(tycons, namer);
                if legal_modules.len() == 0 {
                    out.append("orphan instance\n  `instance ");
                    out.append(class.as_str());
                    out.append(" ");
                    out.append(ty_text.as_str());
                    out.append("` cannot be written here: `");
                    out.append(class.as_str());
                    out.append("` and `");
                    out.append(ty_text.as_str());
                    out.append("` are both built in, so no module in this workspace declares either of them\n  hint: wrap `");
                    out.append(ty_text.as_str());
                    out.append("` in a type of your own and write the instance for the wrapper");
                } else {
                    out.append("orphan instance\n  `instance ");
                    out.append(class.as_str());
                    out.append(" ");
                    out.append(ty_text.as_str());
                    out.append("` must be defined in ");
                    out.append(join_or(legal_modules).as_str());
                    out.append("; found in `");
                    out.append(instance_module.as_str());
                    out.append("`\n  hint: move the instance to one of those modules");
                }
            },
            TypeError::OverlappingInstance { class, ty, .. } => {
                let ty_text = ty.render_in(tycons, namer);
                out.append("overlapping instance\n  `instance ");
                out.append(class.as_str());
                out.append(" ");
                out.append(ty_text.as_str());
                out.append("` is already defined; only one instance per class/type pair is allowed\n  hint: remove the duplicate instance");
            },
            TypeError::MissingSuperclassInstance { class, ty, superclass, .. } => {
                let ty_text = ty.render_in(tycons, namer);
                out.append("missing superclass instance\n  `");
                out.append(class.as_str());
                out.append(" ");
                out.append(ty_text.as_str());
                out.append("` requires `");
                out.append(superclass.as_str());
                out.append(" ");
                out.append(ty_text.as_str());
                out.append("` but no such instance exists\n  hint: add `instance ");
                out.append(superclass.as_str());
                out.append(" ");
                out.append(ty_text.as_str());
                out.append("` or add `");
                out.append(superclass.as_str());
                out.append("` to the `deriving` list");
            },
            TypeError::ToTextConflict { ty, .. } => {
                let ty_text = ty.render_in(tycons, namer);
                out.append("conflicting ToText instances\n  `");
                out.append(ty_text.as_str());
                out.append("` already has a ToText instance auto-derived from its `pub fn toText`; remove one (either the `pub fn toText` function or the explicit `instance ToText ");
                out.append(ty_text.as_str());
                out.append("`)");
            },
            TypeError::SuperclassCycle { cycle, .. } => {
                out.append("superclass cycle detected\n  cycle: ");
                out.append(join(cycle, " -> ").as_str());
                out.append("\n  hint: class hierarchies must be acyclic; remove one of the circular superclass requirements");
            },
            TypeError::OpaqueFieldAccess { record, field, .. } => {
                out.append("field `");
                out.append(field.as_str());
                out.append("` of opaque type `");
                out.append(record.as_str());
                out.append("` cannot be reached outside its defining module\n  hint: call a function the module exports instead of touching the field directly");
            },
            TypeError::RowMismatch { expected, found, missing_fields, extra_fields, .. } => {
                let expected_text = expected.render_in(tycons, namer);
                let found_text = found.render_in(tycons, namer);
                out.append("record shape mismatch\n  expected `");
                out.append(expected_text.as_str());
                out.append("`, got `");
                out.append(found_text.as_str());
                out.append("`");
                if extra_fields.len() > 0 {
                    out.append("\n  unexpected field(s): ");
                    out.append(join(extra_fields, ", ").as_str());
                }
                if missing_fields.len() > 0 {
                    out.append("\n  missing field(s): ");
                    out.append(join(missing_fields, ", ").as_str());
                }
            },
            TypeError::InstanceArityMismatch { class, expected, found, .. } => {
                out.append("wrong number of types in instance head\n  class `");
                out.append(class.as_str());
                out.append("` takes ");
                out.append(decimal(*expected as u128).as_str());
                out.append(" type parameter(s), but the instance head supplies ");
                out.append(decimal(*found as u128).as_str());
                out.append("\n  hint: give the instance exactly ");
                out.append(decimal(*expected as u128).as_str());
                out.append(" type atom(s), parenthesising applied types like `(List a)`");
            },
            TypeError::QuoteUnknownColumn { entity, column, suggestions, .. } => {
                out.append("`");
                out.append(column.as_str());
                out.append("` is not a column of `");
                out.append(entity.as_str());
                out.append("` in this quoted predicate");
                if suggestions.len() > 0 {
                    out.append("\n  did you mean: ");
                    out.append(join(suggestions, ", ").as_str());
                }
            },
            TypeError::QuoteUnsupportedExpr { detail, .. } => {
                out.append("this is not supported inside a quoted predicate\n  ");
                out.append(detail.as_str());
                out.append("\n  hint: a quoted predicate is built from column references, literals, comparisons, and `&&`/`||`");
            },
            TypeError::QuoteComparisonMismatch { left, right, .. } => {
                let left_text = left.render_in(tycons, namer);
                let right_text = right.render_in(tycons, namer);
                out.append("the two sides of this comparison have different types\n  left is `");
                out.append(left_text.as_str());
                out.append("`, right is `");
                out.append(right_text.as_str());
                out.append("`");
            },
            TypeError::QuoteEntityUnknown { .. } => {
                out.append("cannot tell which entity this quoted predicate is about\n  hint: annotate the predicate's parameter, e.g. `fn (u: User) -> u.age >= 18`");
            },
            TypeError::RefutablePatternParam { witness, ty, .. } => {
                let ty_text = ty.render_in(tycons, namer);
                out.append("this parameter pattern does not match every value of `");
                out.append(ty_text.as_str());
                out.append("`\n  it would fail on `");
                out.append(witness.as_str());
                out.append("`\n  hint: a function parameter must be irrefutable; destructure in the body with `match`/`let`, or use a single-constructor pattern");
            },
            TypeError::NotAConstructor { name, hint, .. } => {
                out.append("`");
                out.append(name.as_str());
                out.append("` is not a constructor\n  ");
                out.append(hint.as_str());
            },
            TypeError::UnknownFunDepVar { class, var, .. } => {
                out.append("unknown variable in functional dependency\n  `");
                out.append(var.as_str());
                out.append("` is not a type parameter of class `");
                out.append(class.as_str());
                out.append("`\n  hint: a functional dependency may only mention the class's own type parameters");
            },
            TypeError::ConflictingFunDep { class, determining, .. } => {
                out.append("conflicting functional dependency\n  two instances of `");
                out.append(class.as_str());
                out.append("` agree on `");
                out.append(determining.as_str());
                out.append("` but determine different types, which the class's functional dependency forbids\n  hint: a determining type may map to only one determined type");
            },
            TypeError::InsertShapeFullEntity { entity, companion, omitted, .. } => {
                out.append("insert expects the insert shape `");
                out.append(companion.as_str());
                out.append("`, not the full entity `");
                out.append(entity.as_str());
                out.append("`");
                if omitted.len() > 0 {
                    out.append("\n  `");
                    out.append(companion.as_str());
                    out.append("` drops the database-generated column");
                    out.append(if omitted.len() == 1 {
                        ""
                    } else {
                        "s"
                    });
                    out.append(" `");
                    out.append(join(omitted, "`, `").as_str());
                    out.append("`; build a `");
                    out.append(companion.as_str());
                    out.append("` and leave ");
                    out.append(if omitted.len() == 1 {
                        "it"
                    } else {
                        "them"
                    });
                    out.append(" to the database");
                }
            },
            TypeError::ActorCallbackSignature { member, expected, found, .. } => {
                out.append("invalid `");
                out.append(*member);
                out.append("` callback signature\n  `");
                out.append(*member);
                out.append("` must declare (");
                out.append(expected.as_str());
                out.append("), but declares (");
                out.append(found.as_str());
                out.append(")");
            },
            TypeError::UnknownTypeVersion { name, ordinal, .. } => {
                out.append("no previous version known for `");
                out.append(name.as_str());
                out.append("@");
                out.append(decimal(*ordinal as u128).as_str());
                out.append("`\n  versioned references resolve against the previous build's snapshot; none records this version");
            },
            TypeError::DuplicateMigration { name, ordinal, .. } => {
                out.append("duplicate `migrate` for `");
                out.append(name.as_str());
                out.append("@");
                out.append(decimal(*ordinal as u128).as_str());
                out.append("`\n  this version edge already has a hook");
            },
            TypeError::UnsupportedInstanceHead { class, reason, .. } => {
                out.append("unsupported instance head for `");
                out.append(class.as_str());
                out.append("`\n  ");
                out.append(reason.as_str());
            },
            TypeError::ArithmeticOnNonNumeric { op, found, .. } => {
                let found_text = found.render_in(tycons, namer);
                if same_text(found_text.as_str(), "Text") {
                    out.append("arithmetic on non-numeric type\n  `");
                    out.append(*op);
                    out.append("` requires `Int` or `Float` operands, found `Text`\n  hint: use `++` to concatenate text");
                } else {
                    out.append("arithmetic on non-numeric type\n  `");
                    out.append(*op);
                    out.append("` requires `Int` or `Float` operands, found `");
                    out.append(found_text.as_str());
                    out.append("`\n  hint: use `++` to concatenate text or lists");
                }
            },
            TypeError::MainHasParams { found, .. } => {
                out.append("`main` must not take parameters\n  `main` is the program entry point and is invoked with no arguments, but declares ");
                out.append(decimal(*found as u128).as_str());
                out.append(" parameter");
                out.append(if *found == 1 {
                    ""
                } else {
                    "s"
                });
                out.append("\n  hint: declare it as `fn main () -> ...`\n  hint: to read command-line arguments, call `Cli.args ()` from `std.cli` — it needs the `env` capability, so write `fn {env} main` and add `\"env\"` to the manifest's `[capabilities] allow`");
            },
            TypeError::FieldAccessOnNonRecord { ty, field, suggestion, .. } => {
                let ty_text = ty.render_in(tycons, namer);
                out.append("field access on non-record\n  `");
                out.append(ty_text.as_str());
                out.append("` has no field `");
                out.append(field.as_str());
                out.append("` — it is not a record");
                if let Some(name) = suggestion {
                    out.append("\n  did you mean `");
                    out.append(name.as_str());
                    out.append("`?");
                }
            },
            TypeError::MissingConstraint { decl, class, ty_var, fix_hint, .. } => {
                let ty_var_text = ty_var.render_in(tycons, namer);
                out.append("missing constraint\n  `");
                out.append(decl.as_str());
                out.append("` promises to work for every `");
                out.append(ty_var_text.as_str());
                out.append("`, but its body needs `");
                out.append(class.as_str());
                out.append(" ");
                out.append(ty_var_text.as_str());
                out.append("`\n  fix: ");
                out.append(fix_hint.as_str());
            },
            TypeError::UnknownTypeName { name, suggestions, .. } => {
                out.append("unknown type `");
                out.append(name.as_str());
                out.append("`\n  ");
                if suggestions.len() == 0 {
                    out.append("declare it, or import the module that does");
                } else {
                    out.append("did you mean ");
                    out.append(quoted_list(suggestions).as_str());
                    out.append("?");
                }
            },
            TypeError::TupleWidthMismatch { expected, found, .. } => {
                out.append("tuple width mismatch\n  ");
                out.append(tuple_width_sentence(*expected, *found).as_str());
            },
            TypeError::PropagateOutsideResultOrOption { found_ty, expected, .. } => {
                let found_ty_text = found_ty.render_in(tycons, namer);
                let expected_text = expected.render_in(tycons, namer);
                out.append("`?` used outside Result/Option context\n  found `");
                out.append(found_ty_text.as_str());
                out.append("`, enclosing function returns `");
                out.append(expected_text.as_str());
                out.append("`");
            },
            TypeError::MainErrorNotShowable { ty, fix_hint, .. } => {
                let ty_text = ty.render_in(tycons, namer);
                out.append("`main` cannot report the failure it returns\n  its error type `");
                out.append(ty_text.as_str());
                out.append("` has no `ToText` instance, so a run that ends in `Err` has nothing to print\n  hint: ");
                out.append(fix_hint.as_str());
            },
            TypeError::InternalTypeError { detail, .. } => {
                out.append("internal type error\n  ");
                out.append(detail.as_str());
                out.append("\n  This is a compiler bug. Please report it.");
            },
        }
        out
    }

    /// The reader's message, its letters clear of the author's own names.
    #[must_use]
    pub fn render(&self, tycons: &Vec<TyConDecl>) -> (r: String)
        ensures
            r@ == reserving(|n: Names| message(*self, tycons@, n)),
    {
        let print = |n: VarNamer| -> (out: (String, VarNamer))
            requires
                n.wf(),
            ensures
                (out.0@, out.1@) == message(*self, tycons@, n@),
            {
                let mut n = n;
                let s = self.write_message(tycons, &mut n);
                (s, n)
            };
        render_reserving(print)
    }
}

/// Two diagnostics are of the same kind.
pub open spec fn same_kind(a: TypeError, b: TypeError) -> bool {
    match a {
        TypeError::TypeMismatch { .. } => b is TypeMismatch,
        TypeError::TypeMismatchInCall { .. } => b is TypeMismatchInCall,
        TypeError::ArityMismatch { .. } => b is ArityMismatch,
        TypeError::MissingField { .. } => b is MissingField,
        TypeError::UnknownField { .. } => b is UnknownField,
        TypeError::WithOnNonRecord { .. } => b is WithOnNonRecord,
        TypeError::PatternTypeMismatch { .. } => b is PatternTypeMismatch,
        TypeError::WrongConstructorArity { .. } => b is WrongConstructorArity,
        TypeError::OccursCheck { .. } => b is OccursCheck,
        TypeError::RecursiveTypeAlias { .. } => b is RecursiveTypeAlias,
        TypeError::PolymorphicRecursion { .. } => b is PolymorphicRecursion,
        TypeError::CapabilityNotDeclared { .. } => b is CapabilityNotDeclared,
        TypeError::UnknownActorHandler { .. } => b is UnknownActorHandler,
        TypeError::NonExhaustiveMatch { .. } => b is NonExhaustiveMatch,
        TypeError::RedundantPattern { .. } => b is RedundantPattern,
        TypeError::CallerCapabilityInsufficient { .. } => b is CallerCapabilityInsufficient,
        TypeError::ActorCapabilityLeak { .. } => b is ActorCapabilityLeak,
        TypeError::SendOnNonActor { .. } => b is SendOnNonActor,
        TypeError::AskOnNonActor { .. } => b is AskOnNonActor,
        TypeError::DiscardedResult { .. } => b is DiscardedResult,
        TypeError::UnsolvedTypeVariable { .. } => b is UnsolvedTypeVariable,
        TypeError::RowVariableLeak { .. } => b is RowVariableLeak,
        TypeError::SpawnArityMismatch { .. } => b is SpawnArityMismatch,
        TypeError::AskTimeoutNotInt { .. } => b is AskTimeoutNotInt,
        TypeError::MailboxPolicyDropOldestNotShipped { .. } => b is MailboxPolicyDropOldestNotShipped,
        TypeError::IncompleteRecordPattern { .. } => b is IncompleteRecordPattern,
        TypeError::NoInstance { .. } => b is NoInstance,
        TypeError::AmbiguousConstraint { .. } => b is AmbiguousConstraint,
        TypeError::OrphanInstance { .. } => b is OrphanInstance,
        TypeError::OverlappingInstance { .. } => b is OverlappingInstance,
        TypeError::MissingSuperclassInstance { .. } => b is MissingSuperclassInstance,
        TypeError::ToTextConflict { .. } => b is ToTextConflict,
        TypeError::SuperclassCycle { .. } => b is SuperclassCycle,
        TypeError::OpaqueFieldAccess { .. } => b is OpaqueFieldAccess,
        TypeError::RowMismatch { .. } => b is RowMismatch,
        TypeError::InstanceArityMismatch { .. } => b is InstanceArityMismatch,
        TypeError::QuoteUnknownColumn { .. } => b is QuoteUnknownColumn,
        TypeError::QuoteUnsupportedExpr { .. } => b is QuoteUnsupportedExpr,
        TypeError::QuoteComparisonMismatch { .. } => b is QuoteComparisonMismatch,
        TypeError::QuoteEntityUnknown { .. } => b is QuoteEntityUnknown,
        TypeError::RefutablePatternParam { .. } => b is RefutablePatternParam,
        TypeError::NotAConstructor { .. } => b is NotAConstructor,
        TypeError::UnknownFunDepVar { .. } => b is UnknownFunDepVar,
        TypeError::ConflictingFunDep { .. } => b is ConflictingFunDep,
        TypeError::InsertShapeFullEntity { .. } => b is InsertShapeFullEntity,
        TypeError::ActorCallbackSignature { .. } => b is ActorCallbackSignature,
        TypeError::UnknownTypeVersion { .. } => b is UnknownTypeVersion,
        TypeError::DuplicateMigration { .. } => b is DuplicateMigration,
        TypeError::UnsupportedInstanceHead { .. } => b is UnsupportedInstanceHead,
        TypeError::ArithmeticOnNonNumeric { .. } => b is ArithmeticOnNonNumeric,
        TypeError::MainHasParams { .. } => b is MainHasParams,
        TypeError::FieldAccessOnNonRecord { .. } => b is FieldAccessOnNonRecord,
        TypeError::MissingConstraint { .. } => b is MissingConstraint,
        TypeError::UnknownTypeName { .. } => b is UnknownTypeName,
        TypeError::TupleWidthMismatch { .. } => b is TupleWidthMismatch,
        TypeError::PropagateOutsideResultOrOption { .. } => b is PropagateOutsideResultOrOption,
        TypeError::MainErrorNotShowable { .. } => b is MainErrorNotShowable,
        TypeError::InternalTypeError { .. } => b is InternalTypeError,
    }
}

/// A code belongs to one kind of diagnostic.
pub proof fn codes_tell_apart(a: TypeError, b: TypeError)
    requires
        code_text(number(a)) == code_text(number(b)),
    ensures
        same_kind(a, b),
{
    let m = number(a);
    let n = number(b);
    assert(code_text(m)[1] == digit(m / 100) && code_text(n)[1] == digit(n / 100));
    assert(code_text(m)[2] == digit(m / 10 % 10) && code_text(n)[2] == digit(n / 10 % 10));
    assert(code_text(m)[3] == digit(m % 10) && code_text(n)[3] == digit(n % 10));
    assert(m == n);
}

/// A text starts with another.
pub open spec fn starts(s: Seq<char>, p: Seq<char>) -> bool {
    p.len() <= s.len() && s.take(p.len() as int) == p
}

proof fn starts_self(p: Seq<char>)
    ensures
        starts(p, p),
{
    assert(p.take(p.len() as int) =~= p);
}

broadcast proof fn starts_more(s: Seq<char>, x: Seq<char>, p: Seq<char>)
    requires
        starts(s, p),
    ensures
        #[trigger] starts(s + x, p),
{
    assert((s + x).take(p.len() as int) =~= s.take(p.len() as int));
}

broadcast proof fn starts_each(
    start: Seq<char>,
    items: Seq<Seq<char>>,
    pre: Seq<char>,
    post: Seq<char>,
    p: Seq<char>,
)
    requires
        starts(start, p),
    ensures
        #[trigger] starts(with_each(start, items, pre, post), p),
    decreases items.len(),
{
    if items.len() > 0 {
        starts_each(start, items.drop_last(), pre, post, p);
        let s = with_each(start, items.drop_last(), pre, post);
        starts_more(s, pre, p);
        starts_more(s + pre, items.last(), p);
        starts_more(s + pre + items.last(), post, p);
    }
}

/// A message starts with its code and a colon.
#[verifier::rlimit(100)]
pub proof fn messages_start_with_code(e: TypeError, tycons: Seq<TyConDecl>, n: Names)
    ensures
        starts(message(e, tycons, n).0, code_text(number(e)) + ": "@),
{
    broadcast use {starts_more, starts_each};

    let p = code_text(number(e)) + ": "@;
    starts_self(p);
    match e {
        TypeError::TypeMismatch { .. } => assert(starts(message(e, tycons, n).0, p)),
        TypeError::TypeMismatchInCall { .. } => assert(starts(message(e, tycons, n).0, p)),
        TypeError::ArityMismatch { .. } => assert(starts(message(e, tycons, n).0, p)),
        TypeError::MissingField { .. } => assert(starts(message(e, tycons, n).0, p)),
        TypeError::UnknownField { .. } => assert(starts(message(e, tycons, n).0, p)),
        TypeError::WithOnNonRecord { .. } => assert(starts(message(e, tycons, n).0, p)),
        TypeError::PatternTypeMismatch { .. } => assert(starts(message(e, tycons, n).0, p)),
        TypeError::WrongConstructorArity { .. } => assert(starts(message(e, tycons, n).0, p)),
        TypeError::OccursCheck { .. } => assert(starts(message(e, tycons, n).0, p)),
        TypeError::RecursiveTypeAlias { .. } => assert(starts(message(e, tycons, n).0, p)),
        TypeError::PolymorphicRecursion { .. } => assert(starts(message(e, tycons, n).0, p)),
        TypeError::CapabilityNotDeclared { .. } => assert(starts(message(e, tycons, n).0, p)),
        TypeError::UnknownActorHandler { .. } => assert(starts(message(e, tycons, n).0, p)),
        TypeError::NonExhaustiveMatch { .. } => assert(starts(message(e, tycons, n).0, p)),
        TypeError::RedundantPattern { .. } => assert(starts(message(e, tycons, n).0, p)),
        TypeError::CallerCapabilityInsufficient { .. } => assert(starts(message(e, tycons, n).0, p)),
        TypeError::ActorCapabilityLeak { .. } => assert(starts(message(e, tycons, n).0, p)),
        TypeError::SendOnNonActor { .. } => assert(starts(message(e, tycons, n).0, p)),
        TypeError::AskOnNonActor { .. } => assert(starts(message(e, tycons, n).0, p)),
        TypeError::DiscardedResult { .. } => assert(starts(message(e, tycons, n).0, p)),
        TypeError::UnsolvedTypeVariable { .. } => assert(starts(message(e, tycons, n).0, p)),
        TypeError::RowVariableLeak { .. } => assert(starts(message(e, tycons, n).0, p)),
        TypeError::SpawnArityMismatch { .. } => assert(starts(message(e, tycons, n).0, p)),
        TypeError::AskTimeoutNotInt { .. } => assert(starts(message(e, tycons, n).0, p)),
        TypeError::MailboxPolicyDropOldestNotShipped { .. } => assert(starts(message(e, tycons, n).0, p)),
        TypeError::IncompleteRecordPattern { .. } => assert(starts(message(e, tycons, n).0, p)),
        TypeError::NoInstance { .. } => assert(starts(message(e, tycons, n).0, p)),
        TypeError::AmbiguousConstraint { .. } => assert(starts(message(e, tycons, n).0, p)),
        TypeError::OrphanInstance { .. } => assert(starts(message(e, tycons, n).0, p)),
        TypeError::OverlappingInstance { .. } => assert(starts(message(e, tycons, n).0, p)),
        TypeError::MissingSuperclassInstance { .. } => assert(starts(message(e, tycons, n).0, p)),
        TypeError::ToTextConflict { .. } => assert(starts(message(e, tycons, n).0, p)),
        TypeError::SuperclassCycle { .. } => assert(starts(message(e, tycons, n).0, p)),
        TypeError::OpaqueFieldAccess { .. } => assert(starts(message(e, tycons, n).0, p)),
        TypeError::RowMismatch { .. } => assert(starts(message(e, tycons, n).0, p)),
        TypeError::InstanceArityMismatch { .. } => assert(starts(message(e, tycons, n).0, p)),
        TypeError::QuoteUnknownColumn { .. } => assert(starts(message(e, tycons, n).0, p)),
        TypeError::QuoteUnsupportedExpr { .. } => assert(starts(message(e, tycons, n).0, p)),
        TypeError::QuoteComparisonMismatch { .. } => assert(starts(message(e, tycons, n).0, p)),
        TypeError::QuoteEntityUnknown { .. } => assert(starts(message(e, tycons, n).0, p)),
        TypeError::RefutablePatternParam { .. } => assert(starts(message(e, tycons, n).0, p)),
        TypeError::NotAConstructor { .. } => assert(starts(message(e, tycons, n).0, p)),
        TypeError::UnknownFunDepVar { .. } => assert(starts(message(e, tycons, n).0, p)),
        TypeError::ConflictingFunDep { .. } => assert(starts(message(e, tycons, n).0, p)),
        TypeError::InsertShapeFullEntity { .. } => assert(starts(message(e, tycons, n).0, p)),
        TypeError::ActorCallbackSignature { .. } => assert(starts(message(e, tycons, n).0, p)),
        TypeError::UnknownTypeVersion { .. } => assert(starts(message(e, tycons, n).0, p)),
        TypeError::DuplicateMigration { .. } => assert(starts(message(e, tycons, n).0, p)),
        TypeError::UnsupportedInstanceHead { .. } => assert(starts(message(e, tycons, n).0, p)),
        TypeError::ArithmeticOnNonNumeric { .. } => assert(starts(message(e, tycons, n).0, p)),
        TypeError::MainHasParams { .. } => assert(starts(message(e, tycons, n).0, p)),
        TypeError::FieldAccessOnNonRecord { .. } => assert(starts(message(e, tycons, n).0, p)),
        TypeError::MissingConstraint { .. } => assert(starts(message(e, tycons, n).0, p)),
        TypeError::UnknownTypeName { .. } => assert(starts(message(e, tycons, n).0, p)),
        TypeError::TupleWidthMismatch { .. } => assert(starts(message(e, tycons, n).0, p)),
        TypeError::PropagateOutsideResultOrOption { .. } => assert(starts(message(e, tycons, n).0, p)),
        TypeError::MainErrorNotShowable { .. } => assert(starts(message(e, tycons, n).0, p)),
        TypeError::InternalTypeError { .. } => assert(starts(message(e, tycons, n).0, p)),
    }
}

/// Position `k` of a text is there and is no `T`.
pub open spec fn no_t_at(s: Seq<char>, k: int) -> bool {
    0 <= k < s.len() && s[k] != 'T'
}

broadcast proof fn no_t_more(s: Seq<char>, x: Seq<char>, k: int)
    requires
        no_t_at(s, k),
    ensures
        #[trigger] no_t_at(s + x, k),
{
}

broadcast proof fn no_t_each(
    start: Seq<char>,
    items: Seq<Seq<char>>,
    pre: Seq<char>,
    post: Seq<char>,
    k: int,
)
    requires
        no_t_at(start, k),
    ensures
        #[trigger] no_t_at(with_each(start, items, pre, post), k),
    decreases items.len(),
{
    if items.len() > 0 {
        no_t_each(start, items.drop_last(), pre, post, k);
    }
}

/// A text opens with what a reader takes for a code: a `T` and three digits.
pub open spec fn opens_with_code(s: Seq<char>) -> bool {
    s.len() >= 4 && s[0] == 'T' && forall|i: int| 1 <= i < 4 ==> '0' <= #[trigger] s[i] <= '9'
}

proof fn first_titles(e: TypeError, tycons: Seq<TyConDecl>, n: Names)
    requires
        e is TypeMismatch
            || e is TypeMismatchInCall
            || e is ArityMismatch
            || e is MissingField
            || e is UnknownField
            || e is WithOnNonRecord
            || e is PatternTypeMismatch
            || e is WrongConstructorArity
            || e is OccursCheck
            || e is RecursiveTypeAlias
            || e is PolymorphicRecursion
            || e is CapabilityNotDeclared
            || e is UnknownActorHandler
            || e is NonExhaustiveMatch
            || e is RedundantPattern,
    ensures
        no_t_at(message(e, tycons, n).0, 6),
{
    broadcast use {no_t_more, no_t_each};

    reveal_strlit(": ");
    let p = code_text(number(e)) + ": "@;
    match e {
        TypeError::TypeMismatch { .. } => {
            reveal_strlit("type mismatch\n  expected ");
            assert(no_t_at(p + "type mismatch\n  expected "@, 6));
            assert(no_t_at(message(e, tycons, n).0, 6));
        },
        TypeError::TypeMismatchInCall { .. } => {
            reveal_strlit("type mismatch in call to `");
            assert(no_t_at(p + "type mismatch in call to `"@, 6));
            assert(no_t_at(message(e, tycons, n).0, 6));
        },
        TypeError::ArityMismatch { .. } => {
            reveal_strlit("arity mismatch\n  ");
            assert(no_t_at(p + "arity mismatch\n  "@, 6));
            assert(no_t_at(message(e, tycons, n).0, 6));
        },
        TypeError::MissingField { .. } => {
            reveal_strlit("missing field in record construction\n  record `");
            assert(no_t_at(p + "missing field in record construction\n  record `"@, 6));
            assert(no_t_at(message(e, tycons, n).0, 6));
        },
        TypeError::UnknownField { .. } => {
            reveal_strlit("unknown field `");
            assert(no_t_at(p + "unknown field `"@, 6));
            assert(no_t_at(message(e, tycons, n).0, 6));
        },
        TypeError::WithOnNonRecord { .. } => {
            reveal_strlit("`with` on non-record\n  found type `");
            assert(no_t_at(p + "`with` on non-record\n  found type `"@, 6));
            assert(no_t_at(message(e, tycons, n).0, 6));
        },
        TypeError::PatternTypeMismatch { .. } => {
            reveal_strlit("pattern type mismatch\n  expected `");
            assert(no_t_at(p + "pattern type mismatch\n  expected `"@, 6));
            assert(no_t_at(message(e, tycons, n).0, 6));
        },
        TypeError::WrongConstructorArity { .. } => {
            reveal_strlit("wrong constructor arity\n  `");
            assert(no_t_at(p + "wrong constructor arity\n  `"@, 6));
            assert(no_t_at(message(e, tycons, n).0, 6));
        },
        TypeError::OccursCheck { .. } => {
            reveal_strlit("infinite type\n  ");
            assert(no_t_at(p + "infinite type\n  "@, 6));
            assert(no_t_at(message(e, tycons, n).0, 6));
        },
        TypeError::RecursiveTypeAlias { .. } => {
            reveal_strlit("recursive type alias\n  cycle: ");
            assert(no_t_at(p + "recursive type alias\n  cycle: "@, 6));
            assert(no_t_at(message(e, tycons, n).0, 6));
        },
        TypeError::PolymorphicRecursion { .. } => {
            reveal_strlit("`");
            assert(no_t_at(p + "`"@, 6));
            assert(no_t_at(message(e, tycons, n).0, 6));
        },
        TypeError::CapabilityNotDeclared { .. } => {
            reveal_strlit("capability not declared\n  function `");
            assert(no_t_at(p + "capability not declared\n  function `"@, 6));
            reveal_strlit("capability not declared\n  handler `");
            assert(no_t_at(p + "capability not declared\n  handler `"@, 6));
            reveal_strlit("capability not declared\n  the init block");
            assert(no_t_at(p + "capability not declared\n  the init block"@, 6));
            reveal_strlit("capability not declared\n  the terminate callback");
            assert(no_t_at(p + "capability not declared\n  the terminate callback"@, 6));
            reveal_strlit("capability not declared\n  the onDown handler");
            assert(no_t_at(p + "capability not declared\n  the onDown handler"@, 6));
            reveal_strlit("capability not declared\n  inner function `");
            assert(no_t_at(p + "capability not declared\n  inner function `"@, 6));
            assert(no_t_at(message(e, tycons, n).0, 6));
        },
        TypeError::UnknownActorHandler { .. } => {
            reveal_strlit("unknown handler `");
            assert(no_t_at(p + "unknown handler `"@, 6));
            assert(no_t_at(message(e, tycons, n).0, 6));
        },
        TypeError::NonExhaustiveMatch { .. } => {
            reveal_strlit("non-exhaustive match on `");
            assert(no_t_at(p + "non-exhaustive match on `"@, 6));
            assert(no_t_at(message(e, tycons, n).0, 6));
        },
        TypeError::RedundantPattern { .. } => {
            reveal_strlit("redundant pattern\n  arm ");
            assert(no_t_at(p + "redundant pattern\n  arm "@, 6));
            assert(no_t_at(message(e, tycons, n).0, 6));
        },
        _ => {},
    }
}

proof fn second_titles(e: TypeError, tycons: Seq<TyConDecl>, n: Names)
    requires
        e is CallerCapabilityInsufficient
            || e is ActorCapabilityLeak
            || e is SendOnNonActor
            || e is AskOnNonActor
            || e is DiscardedResult
            || e is UnsolvedTypeVariable
            || e is RowVariableLeak
            || e is SpawnArityMismatch
            || e is AskTimeoutNotInt
            || e is MailboxPolicyDropOldestNotShipped
            || e is IncompleteRecordPattern
            || e is NoInstance
            || e is AmbiguousConstraint
            || e is OrphanInstance
            || e is OverlappingInstance,
    ensures
        no_t_at(message(e, tycons, n).0, 6),
{
    broadcast use {no_t_more, no_t_each};

    reveal_strlit(": ");
    let p = code_text(number(e)) + ": "@;
    match e {
        TypeError::CallerCapabilityInsufficient { .. } => {
            reveal_strlit("caller capability insufficient\n  `");
            assert(no_t_at(p + "caller capability insufficient\n  `"@, 6));
            assert(no_t_at(message(e, tycons, n).0, 6));
        },
        TypeError::ActorCapabilityLeak { .. } => {
            reveal_strlit("actor capability leak\n  `");
            assert(no_t_at(p + "actor capability leak\n  `"@, 6));
            assert(no_t_at(message(e, tycons, n).0, 6));
        },
        TypeError::SendOnNonActor { .. } => {
            reveal_strlit("send (`!`) on non-actor\n  found type `");
            assert(no_t_at(p + "send (`!`) on non-actor\n  found type `"@, 6));
            assert(no_t_at(message(e, tycons, n).0, 6));
        },
        TypeError::AskOnNonActor { .. } => {
            reveal_strlit("ask (`?>`) on non-actor\n  found type `");
            assert(no_t_at(p + "ask (`?>`) on non-actor\n  found type `"@, 6));
            assert(no_t_at(message(e, tycons, n).0, 6));
        },
        TypeError::DiscardedResult { .. } => {
            reveal_strlit("discarded result\n  expression of type `");
            assert(no_t_at(p + "discarded result\n  expression of type `"@, 6));
            assert(no_t_at(message(e, tycons, n).0, 6));
        },
        TypeError::UnsolvedTypeVariable { .. } => {
            reveal_strlit("unsolved type variable `");
            assert(no_t_at(p + "unsolved type variable `"@, 6));
            assert(no_t_at(message(e, tycons, n).0, 6));
        },
        TypeError::RowVariableLeak { .. } => {
            reveal_strlit("capability row variable leaked in `");
            assert(no_t_at(p + "capability row variable leaked in `"@, 6));
            assert(no_t_at(message(e, tycons, n).0, 6));
        },
        TypeError::SpawnArityMismatch { .. } => {
            reveal_strlit("spawn arity mismatch\n  `");
            assert(no_t_at(p + "spawn arity mismatch\n  `"@, 6));
            assert(no_t_at(message(e, tycons, n).0, 6));
        },
        TypeError::AskTimeoutNotInt { .. } => {
            reveal_strlit("ask timeout must be Int\n  expected `Int`, found `");
            assert(no_t_at(p + "ask timeout must be Int\n  expected `Int`, found `"@, 6));
            assert(no_t_at(message(e, tycons, n).0, 6));
        },
        TypeError::MailboxPolicyDropOldestNotShipped { .. } => {
            reveal_strlit("`drop oldest` mailbox policy is not yet implemented\n  actor `");
            assert(no_t_at(p + "`drop oldest` mailbox policy is not yet implemented\n  actor `"@, 6));
            assert(no_t_at(message(e, tycons, n).0, 6));
        },
        TypeError::IncompleteRecordPattern { .. } => {
            reveal_strlit("record pattern is missing fields\n  type `");
            assert(no_t_at(p + "record pattern is missing fields\n  type `"@, 6));
            assert(no_t_at(message(e, tycons, n).0, 6));
        },
        TypeError::NoInstance { .. } => {
            reveal_strlit("no instance `");
            assert(no_t_at(p + "no instance `"@, 6));
            assert(no_t_at(message(e, tycons, n).0, 6));
        },
        TypeError::AmbiguousConstraint { .. } => {
            reveal_strlit("ambiguous constraint\n  cannot determine which instance of `");
            assert(no_t_at(p + "ambiguous constraint\n  cannot determine which instance of `"@, 6));
            assert(no_t_at(message(e, tycons, n).0, 6));
        },
        TypeError::OrphanInstance { .. } => {
            reveal_strlit("orphan instance\n  `instance ");
            assert(no_t_at(p + "orphan instance\n  `instance "@, 6));
            assert(no_t_at(message(e, tycons, n).0, 6));
        },
        TypeError::OverlappingInstance { .. } => {
            reveal_strlit("overlapping instance\n  `instance ");
            assert(no_t_at(p + "overlapping instance\n  `instance "@, 6));
            assert(no_t_at(message(e, tycons, n).0, 6));
        },
        _ => {},
    }
}

proof fn third_titles(e: TypeError, tycons: Seq<TyConDecl>, n: Names)
    requires
        e is MissingSuperclassInstance
            || e is ToTextConflict
            || e is SuperclassCycle
            || e is OpaqueFieldAccess
            || e is RowMismatch
            || e is InstanceArityMismatch
            || e is QuoteUnknownColumn
            || e is QuoteUnsupportedExpr
            || e is QuoteComparisonMismatch
            || e is QuoteEntityUnknown
            || e is RefutablePatternParam
            || e is NotAConstructor
            || e is UnknownFunDepVar
            || e is ConflictingFunDep
            || e is InsertShapeFullEntity,
    ensures
        no_t_at(message(e, tycons, n).0, 6),
{
    broadcast use {no_t_more, no_t_each};

    reveal_strlit(": ");
    let p = code_text(number(e)) + ": "@;
    match e {
        TypeError::MissingSuperclassInstance { .. } => {
            reveal_strlit("missing superclass instance\n  `");
            assert(no_t_at(p + "missing superclass instance\n  `"@, 6));
            assert(no_t_at(message(e, tycons, n).0, 6));
        },
        TypeError::ToTextConflict { .. } => {
            reveal_strlit("conflicting ToText instances\n  `");
            assert(no_t_at(p + "conflicting ToText instances\n  `"@, 6));
            assert(no_t_at(message(e, tycons, n).0, 6));
        },
        TypeError::SuperclassCycle { .. } => {
            reveal_strlit("superclass cycle detected\n  cycle: ");
            assert(no_t_at(p + "superclass cycle detected\n  cycle: "@, 6));
            assert(no_t_at(message(e, tycons, n).0, 6));
        },
        TypeError::OpaqueFieldAccess { .. } => {
            reveal_strlit("field `");
            assert(no_t_at(p + "field `"@, 6));
            assert(no_t_at(message(e, tycons, n).0, 6));
        },
        TypeError::RowMismatch { .. } => {
            reveal_strlit("record shape mismatch\n  expected `");
            assert(no_t_at(p + "record shape mismatch\n  expected `"@, 6));
            assert(no_t_at(message(e, tycons, n).0, 6));
        },
        TypeError::InstanceArityMismatch { .. } => {
            reveal_strlit("wrong number of types in instance head\n  class `");
            assert(no_t_at(p + "wrong number of types in instance head\n  class `"@, 6));
            assert(no_t_at(message(e, tycons, n).0, 6));
        },
        TypeError::QuoteUnknownColumn { .. } => {
            reveal_strlit("`");
            assert(no_t_at(p + "`"@, 6));
            assert(no_t_at(message(e, tycons, n).0, 6));
        },
        TypeError::QuoteUnsupportedExpr { .. } => {
            reveal_strlit("this is not supported inside a quoted predicate\n  ");
            assert(no_t_at(p + "this is not supported inside a quoted predicate\n  "@, 6));
            assert(no_t_at(message(e, tycons, n).0, 6));
        },
        TypeError::QuoteComparisonMismatch { .. } => {
            reveal_strlit("the two sides of this comparison have different types\n  left is `");
            assert(no_t_at(p + "the two sides of this comparison have different types\n  left is `"@, 6));
            assert(no_t_at(message(e, tycons, n).0, 6));
        },
        TypeError::QuoteEntityUnknown { .. } => {
            reveal_strlit("cannot tell which entity this quoted predicate is about\n  hint: annotate the predicate's parameter, e.g. `fn (u: User) -> u.age >= 18`");
            assert(no_t_at(p + "cannot tell which entity this quoted predicate is about\n  hint: annotate the predicate's parameter, e.g. `fn (u: User) -> u.age >= 18`"@, 6));
            assert(no_t_at(message(e, tycons, n).0, 6));
        },
        TypeError::RefutablePatternParam { .. } => {
            reveal_strlit("this parameter pattern does not match every value of `");
            assert(no_t_at(p + "this parameter pattern does not match every value of `"@, 6));
            assert(no_t_at(message(e, tycons, n).0, 6));
        },
        TypeError::NotAConstructor { .. } => {
            reveal_strlit("`");
            assert(no_t_at(p + "`"@, 6));
            assert(no_t_at(message(e, tycons, n).0, 6));
        },
        TypeError::UnknownFunDepVar { .. } => {
            reveal_strlit("unknown variable in functional dependency\n  `");
            assert(no_t_at(p + "unknown variable in functional dependency\n  `"@, 6));
            assert(no_t_at(message(e, tycons, n).0, 6));
        },
        TypeError::ConflictingFunDep { .. } => {
            reveal_strlit("conflicting functional dependency\n  two instances of `");
            assert(no_t_at(p + "conflicting functional dependency\n  two instances of `"@, 6));
            assert(no_t_at(message(e, tycons, n).0, 6));
        },
        TypeError::InsertShapeFullEntity { .. } => {
            reveal_strlit("insert expects the insert shape `");
            assert(no_t_at(p + "insert expects the insert shape `"@, 6));
            assert(no_t_at(message(e, tycons, n).0, 6));
        },
        _ => {},
    }
}

proof fn fourth_titles(e: TypeError, tycons: Seq<TyConDecl>, n: Names)
    requires
        e is ActorCallbackSignature
            || e is UnknownTypeVersion
            || e is DuplicateMigration
            || e is UnsupportedInstanceHead
            || e is ArithmeticOnNonNumeric
            || e is MainHasParams
            || e is FieldAccessOnNonRecord
            || e is MissingConstraint
            || e is UnknownTypeName
            || e is TupleWidthMismatch
            || e is PropagateOutsideResultOrOption
            || e is MainErrorNotShowable
            || e is InternalTypeError,
    ensures
        no_t_at(message(e, tycons, n).0, 6),
{
    broadcast use {no_t_more, no_t_each};

    reveal_strlit(": ");
    let p = code_text(number(e)) + ": "@;
    match e {
        TypeError::ActorCallbackSignature { .. } => {
            reveal_strlit("invalid `");
            assert(no_t_at(p + "invalid `"@, 6));
            assert(no_t_at(message(e, tycons, n).0, 6));
        },
        TypeError::UnknownTypeVersion { .. } => {
            reveal_strlit("no previous version known for `");
            assert(no_t_at(p + "no previous version known for `"@, 6));
            assert(no_t_at(message(e, tycons, n).0, 6));
        },
        TypeError::DuplicateMigration { .. } => {
            reveal_strlit("duplicate `migrate` for `");
            assert(no_t_at(p + "duplicate `migrate` for `"@, 6));
            assert(no_t_at(message(e, tycons, n).0, 6));
        },
        TypeError::UnsupportedInstanceHead { .. } => {
            reveal_strlit("unsupported instance head for `");
            assert(no_t_at(p + "unsupported instance head for `"@, 6));
            assert(no_t_at(message(e, tycons, n).0, 6));
        },
        TypeError::ArithmeticOnNonNumeric { .. } => {
            reveal_strlit("arithmetic on non-numeric type\n  `");
            assert(no_t_at(p + "arithmetic on non-numeric type\n  `"@, 6));
            assert(no_t_at(message(e, tycons, n).0, 6));
        },
        TypeError::MainHasParams { .. } => {
            reveal_strlit("`main` must not take parameters\n  `main` is the program entry point and is invoked with no arguments, but declares ");
            assert(no_t_at(p + "`main` must not take parameters\n  `main` is the program entry point and is invoked with no arguments, but declares "@, 6));
            assert(no_t_at(message(e, tycons, n).0, 6));
        },
        TypeError::FieldAccessOnNonRecord { .. } => {
            reveal_strlit("field access on non-record\n  `");
            assert(no_t_at(p + "field access on non-record\n  `"@, 6));
            assert(no_t_at(message(e, tycons, n).0, 6));
        },
        TypeError::MissingConstraint { .. } => {
            reveal_strlit("missing constraint\n  `");
            assert(no_t_at(p + "missing constraint\n  `"@, 6));
            assert(no_t_at(message(e, tycons, n).0, 6));
        },
        TypeError::UnknownTypeName { .. } => {
            reveal_strlit("unknown type `");
            assert(no_t_at(p + "unknown type `"@, 6));
            assert(no_t_at(message(e, tycons, n).0, 6));
        },
        TypeError::TupleWidthMismatch { .. } => {
            reveal_strlit("tuple width mismatch\n  ");
            assert(no_t_at(p + "tuple width mismatch\n  "@, 6));
            assert(no_t_at(message(e, tycons, n).0, 6));
        },
        TypeError::PropagateOutsideResultOrOption { .. } => {
            reveal_strlit("`?` used outside Result/Option context\n  found `");
            assert(no_t_at(p + "`?` used outside Result/Option context\n  found `"@, 6));
            assert(no_t_at(message(e, tycons, n).0, 6));
        },
        TypeError::MainErrorNotShowable { .. } => {
            reveal_strlit("`main` cannot report the failure it returns\n  its error type `");
            assert(no_t_at(p + "`main` cannot report the failure it returns\n  its error type `"@, 6));
            assert(no_t_at(message(e, tycons, n).0, 6));
        },
        TypeError::InternalTypeError { .. } => {
            reveal_strlit("internal type error\n  ");
            assert(no_t_at(p + "internal type error\n  "@, 6));
            assert(no_t_at(message(e, tycons, n).0, 6));
        },
        _ => {},
    }
}

/// No message says a code twice: what follows the code and its colon does not
/// open with a code.
pub proof fn no_code_follows_the_code(e: TypeError, tycons: Seq<TyConDecl>, n: Names)
    ensures
        starts(message(e, tycons, n).0, code_text(number(e)) + ": "@),
        !opens_with_code(
            message(e, tycons, n).0.skip((code_text(number(e)) + ": "@).len() as int),
        ),
{
    messages_start_with_code(e, tycons, n);
    reveal_strlit(": ");
    let m = message(e, tycons, n).0;
    assert((code_text(number(e)) + ": "@).len() == 6);
    if e is TypeMismatch
        || e is TypeMismatchInCall
        || e is ArityMismatch
        || e is MissingField
        || e is UnknownField
        || e is WithOnNonRecord
        || e is PatternTypeMismatch
        || e is WrongConstructorArity
        || e is OccursCheck
        || e is RecursiveTypeAlias
        || e is PolymorphicRecursion
        || e is CapabilityNotDeclared
        || e is UnknownActorHandler
        || e is NonExhaustiveMatch
        || e is RedundantPattern {
        first_titles(e, tycons, n);
    }
    if e is CallerCapabilityInsufficient
        || e is ActorCapabilityLeak
        || e is SendOnNonActor
        || e is AskOnNonActor
        || e is DiscardedResult
        || e is UnsolvedTypeVariable
        || e is RowVariableLeak
        || e is SpawnArityMismatch
        || e is AskTimeoutNotInt
        || e is MailboxPolicyDropOldestNotShipped
        || e is IncompleteRecordPattern
        || e is NoInstance
        || e is AmbiguousConstraint
        || e is OrphanInstance
        || e is OverlappingInstance {
        second_titles(e, tycons, n);
    }
    if e is MissingSuperclassInstance
        || e is ToTextConflict
        || e is SuperclassCycle
        || e is OpaqueFieldAccess
        || e is RowMismatch
        || e is InstanceArityMismatch
        || e is QuoteUnknownColumn
        || e is QuoteUnsupportedExpr
        || e is QuoteComparisonMismatch
        || e is QuoteEntityUnknown
        || e is RefutablePatternParam
        || e is NotAConstructor
        || e is UnknownFunDepVar
        || e is ConflictingFunDep
        || e is InsertShapeFullEntity {
        third_titles(e, tycons, n);
    }
    if e is ActorCallbackSignature
        || e is UnknownTypeVersion
        || e is DuplicateMigration
        || e is UnsupportedInstanceHead
        || e is ArithmeticOnNonNumeric
        || e is MainHasParams
        || e is FieldAccessOnNonRecord
        || e is MissingConstraint
        || e is UnknownTypeName
        || e is TupleWidthMismatch
        || e is PropagateOutsideResultOrOption
        || e is MainErrorNotShowable
        || e is InternalTypeError {
        fourth_titles(e, tycons, n);
    }
    assert(no_t_at(m, 6));
    assert(m.skip(6)[0] == m[6]);
}

} // verus!

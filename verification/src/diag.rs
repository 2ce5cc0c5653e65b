use vstd::prelude::*;

use crate::error::{TypeDesc, TypeError};
use crate::text::texts;
use crate::types::{Span, Ty};
use crate::unify::{lacking, tells, Clash};

verus! {

/// What a description of a type in a diagnostic denotes.
#[verifier::ext_equal]
pub enum Desc {
    Ty(Ty),
    Text(Seq<char>),
}

pub open spec fn desc(d: TypeDesc) -> Desc {
    match d {
        TypeDesc::Ty(t) => Desc::Ty(t@),
        TypeDesc::Text(s) => Desc::Text(s@),
        TypeDesc::Phrase(p) => Desc::Text(p@),
    }
}

pub open spec fn opt_text(o: Option<String>) -> Option<Seq<char>> {
    match o {
        Some(s) => Some(s@),
        None => None,
    }
}

/// What a diagnostic denotes: its kind and everything that it says. Of the kinds
/// that no function of this library reports, the diagnostic itself is kept.
#[verifier::ext_equal]
#[allow(inconsistent_fields)]
pub enum Diag {
    Mismatch { expected: Desc, found: Desc, span: Span, hint: Option<Seq<char>> },
    Arity {
        callee: Seq<char>,
        expected: nat,
        found: nat,
        span: Span,
        hint: Option<Seq<char>>,
    },
    Width { expected: nat, found: nat, span: Span },
    Occurs { var: Desc, ty: Desc, span: Span },
    Row {
        expected: Desc,
        found: Desc,
        missing: Seq<Seq<char>>,
        extra: Seq<Seq<char>>,
        span: Span,
    },
    InsertShape {
        entity: Seq<char>,
        companion: Seq<char>,
        omitted: Seq<Seq<char>>,
        span: Span,
    },
    MissingField { record: Seq<char>, field: Seq<char>, span: Span },
    UnknownField {
        record: Seq<char>,
        field: Seq<char>,
        suggestions: Seq<Seq<char>>,
        span: Span,
    },
    NonRecord { ty: Desc, span: Span },
    Opaque { record: Seq<char>, field: Seq<char>, span: Span },
    Discarded { ty: Desc, span: Span },
    Unsolved { var: Seq<char>, span: Span },
    NoInstance { class: Seq<char>, ty: Desc, span: Span, hint: Seq<char> },
    Ambiguous { class: Seq<char>, ty_var: Desc, span: Span },
    UnknownColumn {
        entity: Seq<char>,
        column: Seq<char>,
        suggestions: Seq<Seq<char>>,
        span: Span,
    },
    Unsupported { detail: Seq<char>, span: Span },
    Comparison { left: Desc, right: Desc, span: Span },
    UnknownVersion { name: Seq<char>, ordinal: u32, span: Span },
    DuplicateMigration { name: Seq<char>, ordinal: u32, span: Span },
    OutsideResult { found: Desc, expected: Desc, span: Span },
    Internal { detail: Seq<char>, span: Span },
    /// A kind that type checking of expressions leaves to the passes around it.
    Other(TypeError),
}

/// What a diagnostic denotes.
pub open spec fn diag(e: TypeError) -> Diag {
    match e {
        TypeError::TypeMismatch { expected, found, span, hint } => Diag::Mismatch {
            expected: desc(expected),
            found: desc(found),
            span,
            hint: opt_text(hint),
        },
        TypeError::ArityMismatch { callee, expected, found, span, hint } => Diag::Arity {
            callee: callee@,
            expected: expected as nat,
            found: found as nat,
            span,
            hint: opt_text(hint),
        },
        TypeError::TupleWidthMismatch { expected, found, span } => Diag::Width {
            expected: expected as nat,
            found: found as nat,
            span,
        },
        TypeError::OccursCheck { var, ty, span } => Diag::Occurs {
            var: desc(var),
            ty: desc(ty),
            span,
        },
        TypeError::RowMismatch { expected, found, missing_fields, extra_fields, span } => Diag::Row {
            expected: desc(expected),
            found: desc(found),
            missing: texts(missing_fields@),
            extra: texts(extra_fields@),
            span,
        },
        TypeError::InsertShapeFullEntity { entity, companion, omitted, span } => Diag::InsertShape {
            entity: entity@,
            companion: companion@,
            omitted: texts(omitted@),
            span,
        },
        TypeError::MissingField { record, field, span } => Diag::MissingField {
            record: record@,
            field: field@,
            span,
        },
        TypeError::UnknownField { record, field, suggestions, span } => Diag::UnknownField {
            record: record@,
            field: field@,
            suggestions: texts(suggestions@),
            span,
        },
        TypeError::WithOnNonRecord { ty, span } => Diag::NonRecord { ty: desc(ty), span },
        TypeError::OpaqueFieldAccess { record, field, span } => Diag::Opaque {
            record: record@,
            field: field@,
            span,
        },
        TypeError::DiscardedResult { ty, span } => Diag::Discarded { ty: desc(ty), span },
        TypeError::UnsolvedTypeVariable { var, generalisation_site } => Diag::Unsolved {
            var: var@,
            span: generalisation_site,
        },
        TypeError::NoInstance { class, ty, span, fix_hint } => Diag::NoInstance {
            class: class@,
            ty: desc(ty),
            span,
            hint: fix_hint@,
        },
        TypeError::AmbiguousConstraint { class, ty_var, span } => Diag::Ambiguous {
            class: class@,
            ty_var: desc(ty_var),
            span,
        },
        TypeError::QuoteUnknownColumn { entity, column, suggestions, span } => Diag::UnknownColumn {
            entity: entity@,
            column: column@,
            suggestions: texts(suggestions@),
            span,
        },
        TypeError::QuoteUnsupportedExpr { detail, span } => Diag::Unsupported {
            detail: detail@,
            span,
        },
        TypeError::QuoteComparisonMismatch { left, right, span } => Diag::Comparison {
            left: desc(left),
            right: desc(right),
            span,
        },
        TypeError::UnknownTypeVersion { name, ordinal, span } => Diag::UnknownVersion {
            name: name@,
            ordinal,
            span,
        },
        TypeError::DuplicateMigration { name, ordinal, span } => Diag::DuplicateMigration {
            name: name@,
            ordinal,
            span,
        },
        TypeError::PropagateOutsideResultOrOption { found_ty, expected, span } => Diag::OutsideResult {
            found: desc(found_ty),
            expected: desc(expected),
            span,
        },
        TypeError::InternalTypeError { detail, span } => Diag::Internal { detail: detail@, span },
        _ => Diag::Other(e),
    }
}

/// What each diagnostic of a list denotes.
pub open spec fn diags(es: Seq<TypeError>) -> Seq<Diag> {
    es.map_values(|e: TypeError| diag(e))
}

pub broadcast proof fn diags_push(es: Seq<TypeError>, e: TypeError)
    ensures
        #[trigger] diags(es.push(e)) == diags(es).push(diag(e)),
{
    assert(diags(es.push(e)) =~= diags(es).push(diag(e)));
}

/// The diagnostic of a clash at a place.
pub open spec fn clash_diag(c: Clash, span: Span) -> Diag {
    match c {
        Clash::Mismatch(a, b) => Diag::Mismatch {
            expected: Desc::Ty(a),
            found: Desc::Ty(b),
            span,
            hint: None,
        },
        Clash::Occurs(v, t) => Diag::Occurs { var: Desc::Ty(Ty::Var(v)), ty: Desc::Ty(t), span },
        Clash::Arity(m, n) => Diag::Arity {
            callee: Seq::empty(),
            expected: m,
            found: n,
            span,
            hint: None,
        },
        Clash::Width(m, n) => Diag::Width { expected: m, found: n, span },
        Clash::Row(a, b) => Diag::Row {
            expected: Desc::Ty(a),
            found: Desc::Ty(b),
            missing: lacking(a->Record_fields, b->Record_fields),
            extra: lacking(b->Record_fields, a->Record_fields),
            span,
        },
    }
}

/// The place of a diagnostic that points nowhere yet.
pub open spec fn nowhere() -> Span {
    Span { start: 0, end: 0 }
}

pub proof fn tells_clash(e: TypeError, c: Clash)
    requires
        tells(e, c),
    ensures
        diag(e) == clash_diag(c, nowhere()),
{
    match c {
        Clash::Arity(_, _) => {
            match e {
                TypeError::ArityMismatch { callee, .. } => {
                    assert(callee@ =~= Seq::empty());
                },
                _ => {},
            }
        },
        _ => {},
    }
}

} // verus!

use vstd::prelude::*;

use crate::ast::{Expr, FieldInit};
use crate::ctx::InferCtx;
use crate::diag::{diags, Diag};
use crate::instantiate::fresh_vars;
use crate::pipe_propagate::repoint;
use crate::recording::{arguments_replace_parameters, missing_initialisers_are_not_found};
use crate::records::{
    as_types, constructed, field_built, fields_built, fitted, given_fields, has_value, init_of,
    respan, unknown_reports, used, valued, want_of,
};
use crate::render::declared_fields;
use crate::table::{resolve, solved};
use crate::types::{RecordSchema, Span, Ty, TyConDecl, TyConId, TyVid, Type};
use crate::unify::{agrees, unified, unified_agree};

verus! {

/// A value that is put where one of a type belongs has that type from then on, or
/// is reported once, at its place.
pub proof fn values_fit_or_are_reported(c: InferCtx, d: InferCtx, value: Ty, want: Ty, span: Span)
    requires
        fitted(c, d, value, want, span),
        solved(c.table()),
    ensures
        diags(c.errors@).is_prefix_of(diags(d.errors@)),
        diags(d.errors@).len() <= diags(c.errors@).len() + 1,
        diags(d.errors@).len() == diags(c.errors@).len() ==> agrees(
            resolve(d.table(), value),
            resolve(d.table(), want),
        ),
        d.env == c.env,
{
    unified_agree(c.table(), value, want);
}

/// A field of a record that is built as it should be is given a value, of the
/// type that the field has; one without a value is reported.
pub proof fn built_fields_hold_their_types<F: Fn(InferCtx, &Expr) -> (InferCtx, Type)>(
    infer: F,
    c: InferCtx,
    d: InferCtx,
    record: Seq<char>,
    inits: Seq<FieldInit>,
    field: (Seq<char>, Ty),
    span: Span,
    was: bool,
    ok: bool,
)
    requires
        field_built(infer, c, d, record, inits, field, span, was, ok),
        forall|m: InferCtx, t: Ty, fi: FieldInit| #[trigger]
            valued(infer, c, m, fi, "' not in scope"@, t) ==> solved(m.table()),
    ensures
        ok ==> was,
        ok ==> exists|i: int|
            0 <= i < inits.len() && (#[trigger] inits[i]).name.text@ == field.0 && exists|
                m: InferCtx,
                t: Ty,
            | #[trigger]
                valued(infer, c, m, inits[i], "' not in scope"@, t) && agrees(
                    resolve(d.table(), t),
                    resolve(d.table(), field.1),
                ),
        (forall|i: int| 0 <= i < inits.len() ==> (#[trigger] inits[i]).name.text@ != field.0) ==> !ok
            && diags(d.errors@) == diags(c.errors@).push(
            Diag::MissingField { record, field: field.0, span },
        ),
{
    if forall|i: int| 0 <= i < inits.len() ==> (#[trigger] inits[i]).name.text@ != field.0 {
        missing_initialisers_are_not_found(inits, field.0);
    }
    if ok {
        let fi = init_of(inits, field.0)->0;
        found_is_listed(inits, field.0);
        let i = choose|i: int| 0 <= i < inits.len() && #[trigger] inits[i] == fi;
        let (m, t) = choose|m: InferCtx, t: Ty| #[trigger]
            valued(infer, c, m, fi, "' not in scope"@, t) && fitted(m, d, t, field.1, fi.span)
                && ok == (was && has_value(c.env@, fi) && unified(
                m.table(),
                t,
                field.1,
            ).1 is None);
        unified_agree(m.table(), t, field.1);
        assert(inits[i].name.text@ == field.0);
        assert(valued(infer, c, m, inits[i], "' not in scope"@, t));
    }
}

proof fn found_is_listed(inits: Seq<FieldInit>, name: Seq<char>)
    requires
        init_of(inits, name) is Some,
    ensures
        exists|i: int| 0 <= i < inits.len() && #[trigger] inits[i] == init_of(inits, name)->0,
        init_of(inits, name)->0.name.text@ == name,
    decreases inits.len(),
{
    if inits[0].name.text@ == name {
        assert(inits[0] == init_of(inits, name)->0);
    } else {
        let rest = inits.skip(1);
        found_is_listed(rest, name);
        let i = choose|i: int| 0 <= i < rest.len() && #[trigger] rest[i] == init_of(rest, name)->0;
        assert(inits[i + 1] == rest[i]);
    }
}

proof fn built_are_given<F: Fn(InferCtx, &Expr) -> (InferCtx, Type)>(
    infer: F,
    c: InferCtx,
    d: InferCtx,
    record: Seq<char>,
    inits: Seq<FieldInit>,
    fields: Seq<(Seq<char>, Ty)>,
    span: Span,
    k: nat,
)
    requires
        k <= fields.len(),
        fields_built(infer, c, d, record, inits, fields, span, k, true),
    ensures
        forall|i: int|
            0 <= i < k ==> exists|j: int|
                0 <= j < inits.len() && (#[trigger] inits[j]).name.text@ == (
                #[trigger] fields[i]).0,
    decreases k,
{
    if k > 0 {
        let field = fields[k - 1];
        let (m, was) = choose|m: InferCtx, was: bool| #[trigger]
            field_built(infer, m, d, record, inits, field, span, was, true) && fields_built(
                infer,
                c,
                m,
                record,
                inits,
                fields,
                span,
                (k - 1) as nat,
                was,
            );
        assert(was);
        built_are_given(infer, c, m, record, inits, fields, span, (k - 1) as nat);
        found_is_listed(inits, field.0);
        let j = choose|j: int|
            0 <= j < inits.len() && #[trigger] inits[j] == init_of(inits, field.0)->0;
        assert(inits[j].name.text@ == field.0);
    }
}

/// A record that is constructed has the type of its declaration, over one new
/// variable for each parameter, and every field that is declared is given. Where
/// that is not so, it has no type.
pub proof fn records_are_constructed_whole<F: Fn(InferCtx, &Expr) -> (InferCtx, Type)>(
    infer: F,
    c: InferCtx,
    d: InferCtx,
    schema: RecordSchema,
    owner: TyConId,
    record: Seq<char>,
    inits: Seq<FieldInit>,
    span: Span,
    t: Ty,
)
    requires
        constructed(infer, c, d, schema, owner, record, inits, span, t),
        c.table().types.len() + schema.params@.len() <= u32::MAX,
    ensures
        t is Error || (t matches Ty::Con(id, args) && id == owner && args.len()
            == schema.params@.len() && forall|i: int|
            0 <= i < args.len() ==> (#[trigger] args[i]) == Ty::Var(
                TyVid((c.table().types.len() + i) as u32),
            )),
        !(t is Error) ==> forall|i: int|
            0 <= i < schema.fields@.len() ==> exists|j: int|
                0 <= j < inits.len() && (#[trigger] inits[j]).name.text@ == (
                #[trigger] schema.fields@[i]).name@,
{
    let n = schema.params@.len();
    let args = as_types(fresh_vars(c.table().types.len(), n));
    let fields = given_fields(schema.fields@, schema.params@, args);
    let unknown = unknown_reports(record, declared_fields(schema.fields@), inits);
    let (m, ok) = choose|m: InferCtx, ok: bool|
        #![trigger fields_built(infer, m, d, record, inits, fields, span, fields.len(), ok)]
        {
            &&& t == if ok && unknown.len() == 0 {
                Ty::Con(owner, args)
            } else {
                Ty::Error
            }
            &&& fields_built(infer, m, d, record, inits, fields, span, fields.len(), ok)
        };
    if !(t is Error) {
        built_are_given(infer, m, d, record, inits, fields, span, fields.len());
        assert forall|i: int| 0 <= i < schema.fields@.len() implies exists|j: int|
            0 <= j < inits.len() && (#[trigger] inits[j]).name.text@ == (
            #[trigger] schema.fields@[i]).name@ by {
            assert(fields[i].0 == schema.fields@[i].name@);
        }
    }
}

/// Each field of a record has its declared type with the arguments in place of
/// the parameters.
pub proof fn fields_are_given_their_types(
    schema: RecordSchema,
    args: Seq<Ty>,
    i: int,
    k: int,
)
    requires
        0 <= i < schema.fields@.len(),
        0 <= k < schema.params@.len(),
        args.len() == schema.params@.len(),
        schema.fields@[i].ty@ == Ty::Var(schema.params@[k]),
        forall|j: int| 0 <= j < k ==> (#[trigger] schema.params@[j]) != schema.params@[k],
    ensures
        given_fields(schema.fields@, schema.params@, args).len() == schema.fields@.len(),
        given_fields(schema.fields@, schema.params@, args)[i] == (
            schema.fields@[i].name@,
            args[k],
        ),
{
    arguments_replace_parameters(schema.params@, args, k, schema.params@[k]);
}

/// A field that is updated as it should be is one that the base has, and is given
/// a value of the type that the base has it with.
pub proof fn updated_fields_hold_their_types<F: Fn(InferCtx, &Expr) -> (InferCtx, Type)>(
    infer: F,
    c: InferCtx,
    d: InferCtx,
    base: Ty,
    tycons: Seq<TyConDecl>,
    fi: FieldInit,
    was: bool,
    ok: bool,
)
    requires
        used(infer, c, d, base, tycons, fi, was, ok),
        forall|m: InferCtx, t: Ty| #[trigger]
            valued(infer, c, m, fi, "' not in scope in with-update"@, t) ==> solved(m.table()),
    ensures
        ok ==> was,
        ok ==> (want_of(base, tycons, fi.name.text@) matches Some(want) && exists|
            m: InferCtx,
            t: Ty,
        | #[trigger]
            valued(infer, c, m, fi, "' not in scope in with-update"@, t) && agrees(
                resolve(d.table(), t),
                resolve(d.table(), want),
            )),
        base is Record && want_of(base, tycons, fi.name.text@) is None ==> diags(d.errors@).len()
            == diags(c.errors@).len() + 1,
{
    if ok {
        let want = want_of(base, tycons, fi.name.text@)->0;
        let (m, t) = choose|m: InferCtx, t: Ty| #[trigger]
            valued(infer, c, m, fi, "' not in scope in with-update"@, t) && fitted(
                m,
                d,
                t,
                want,
                fi.span,
            ) && ok == (was && has_value(c.env@, fi) && unified(m.table(), t, want).1 is None);
        unified_agree(m.table(), t, want);
        assert(valued(infer, c, m, fi, "' not in scope in with-update"@, t));
    }
}

/// Moving a diagnostic of unification changes its place and nothing else that it
/// says.
pub proof fn diagnostics_are_moved(d: Diag, at: Span)
    ensures
        d matches Diag::Mismatch { expected, found, span: _, hint } ==> {
            &&& respan(d, at) == (Diag::Mismatch { expected, found, span: at, hint })
            &&& repoint(d, at) == (Diag::Mismatch { expected, found, span: at, hint })
        },
        d matches Diag::Occurs { var, ty, span: _ } ==> {
            &&& respan(d, at) == (Diag::Occurs { var, ty, span: at })
            &&& repoint(d, at) == (Diag::Occurs { var, ty, span: at })
        },
        d matches Diag::Arity { callee, expected, found, span: _, hint } ==> repoint(d, at) == (
        Diag::Arity { callee, expected, found, span: at, hint }),
        !(d is Mismatch) && !(d is Occurs) ==> respan(d, at) == d,
        !(d is Mismatch) && !(d is Occurs) && !(d is Arity) ==> repoint(d, at) == d,
{
}

} // verus!

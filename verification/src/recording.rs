use vstd::prelude::*;

use crate::ast::{Expr, FieldInit, FieldPattern};
use crate::ctx::InferCtx;
use crate::diag::{diags, Desc, Diag};
use crate::qexpr::find_field;
use crate::querying::{fields_are_found, missing_fields_are_not_found};
use crate::records::{
    field_access, field_built, given, given_all, given_row, init_of, missing_reports, names_field,
    position, unknown_reports, want_of,
};
use crate::render::declared_fields;
use crate::subst::{occurs, occurs_any, occurs_field};
use crate::types::{
    CapRow, RecordField, RecordSchema, RowTail, Span, Ty, TyConDecl, TyConId, TyConKind, TyVid,
    Type,
};

verus! {

proof fn position_found(params: Seq<TyVid>, i: int)
    requires
        0 <= i < params.len(),
        forall|j: int| 0 <= j < i ==> #[trigger] params[j] != params[i],
    ensures
        position(params, params[i]) == Some(i as nat),
    decreases i,
{
    if i > 0 {
        assert(params[0] != params[i]);
        let rest = params.skip(1);
        assert(rest[i - 1] == params[i]);
        assert forall|j: int| 0 <= j < i - 1 implies #[trigger] rest[j] != rest[i - 1] by {
            assert(params[j + 1] != params[i]);
        }
        position_found(rest, i - 1);
    }
}

proof fn position_within(params: Seq<TyVid>, v: TyVid)
    ensures
        position(params, v) matches Some(i) ==> i < params.len() && params[i as int] == v,
        position(params, v) is None ==> !params.contains(v),
    decreases params.len(),
{
    if params.len() > 0 {
        position_within(params.skip(1), v);
        if params[0] != v {
            if params.contains(v) {
                let i = choose|i: int| 0 <= i < params.len() && params[i] == v;
                assert(params.skip(1)[i - 1] == v);
            }
        }
    }
}

/// The arguments of a record stand in place of its parameters: a parameter
/// becomes the argument at its place, and every other variable stays.
pub proof fn arguments_replace_parameters(params: Seq<TyVid>, args: Seq<Ty>, i: int, v: TyVid)
    requires
        params.len() == args.len(),
    ensures
        0 <= i < params.len() && (forall|j: int| 0 <= j < i ==> #[trigger] params[j] != params[i])
            ==> given(Ty::Var(params[i]), params, args) == args[i],
        !params.contains(v) ==> given(Ty::Var(v), params, args) == Ty::Var(v),
{
    if 0 <= i < params.len() && (forall|j: int| 0 <= j < i ==> #[trigger] params[j] != params[i]) {
        position_found(params, i);
    }
    if !params.contains(v) {
        position_within(params, v);
        if let Some(k) = position(params, v) {
            assert(params[k as int] == v);
        }
    }
}

/// Putting arguments in place of parameters keeps the shape of a type: the same
/// constructor, tuple or function, with the arguments put into each part.
pub proof fn arguments_keep_the_shape(
    params: Seq<TyVid>,
    args: Seq<Ty>,
    id: TyConId,
    sub: Seq<Ty>,
    ret: Ty,
    caps: CapRow,
    k: int,
)
    requires
        0 <= k < sub.len(),
    ensures
        given(Ty::Con(id, sub), params, args) matches Ty::Con(c, out) && c == id && out.len()
            == sub.len() && out[k] == given(sub[k], params, args),
        given(Ty::Tuple(sub), params, args) matches Ty::Tuple(out) && out.len() == sub.len()
            && out[k] == given(sub[k], params, args),
        given(Ty::Fn { params: sub, ret: Box::new(ret), caps }, params, args) matches Ty::Fn {
            params: out,
            ret: r,
            caps: c,
        } && c == caps && *r == given(ret, params, args) && out.len() == sub.len() && out[k]
            == given(sub[k], params, args),
{
    let out = given_all(sub, params, args);
    assert(out.len() == sub.len());
    assert(out[k] == given(sub[k], params, args));
}

/// A variable of a type with arguments for its parameters is one of the
/// arguments', or one of the type's that is no parameter.
pub proof fn given_vars(t: Ty, params: Seq<TyVid>, args: Seq<Ty>, w: TyVid)
    requires
        params.len() == args.len(),
        occurs(w, given(t, params, args)),
    ensures
        occurs(w, t) && !params.contains(w) || occurs_any(w, args),
    decreases t,
{
    match t {
        Ty::Var(v) => {
            position_within(params, v);
            if let Some(i) = position(params, v) {
                assert(occurs(w, args[i as int]));
            }
        },
        Ty::Con(_, sub) => given_all_vars(sub, params, args, w),
        Ty::Tuple(sub) => given_all_vars(sub, params, args, w),
        Ty::Fn { params: ps, ret, caps: _ } => {
            if occurs(w, given(*ret, params, args)) {
                given_vars(*ret, params, args, w);
            } else {
                given_all_vars(ps, params, args, w);
            }
        },
        Ty::Record { fields, tail: _ } => given_row_vars(fields, params, args, w),
        Ty::Alias { name: _, body } => given_vars(*body, params, args, w),
        _ => {},
    }
}

proof fn given_all_vars(ts: Seq<Ty>, params: Seq<TyVid>, args: Seq<Ty>, w: TyVid)
    requires
        params.len() == args.len(),
        occurs_any(w, given_all(ts, params, args)),
    ensures
        occurs_any(w, ts) && !params.contains(w) || occurs_any(w, args),
    decreases ts,
{
    let out = given_all(ts, params, args);
    let i = choose|i: int| 0 <= i < out.len() && occurs(w, #[trigger] out[i]);
    assert(out[i] == given(ts[i], params, args));
    given_vars(ts[i], params, args, w);
}

proof fn given_row_vars(fs: Seq<(Seq<char>, Ty)>, params: Seq<TyVid>, args: Seq<Ty>, w: TyVid)
    requires
        params.len() == args.len(),
        occurs_field(w, given_row(fs, params, args)),
    ensures
        occurs_field(w, fs) && !params.contains(w) || occurs_any(w, args),
    decreases fs,
{
    let out = given_row(fs, params, args);
    let i = choose|i: int| 0 <= i < out.len() && occurs(w, (#[trigger] out[i]).1);
    assert(out[i].1 == given(fs[i].1, params, args));
    given_vars(fs[i].1, params, args, w);
}

/// A type of a declared record, with its declaration, that is not out of reach.
pub open spec fn reaches(
    tycons: Seq<TyConDecl>,
    id: TyConId,
    module: Option<u32>,
    schema: RecordSchema,
) -> bool {
    id.0 < tycons.len() && tycons[id.0 as int].kind == TyConKind::Record(schema) && !(
    tycons[id.0 as int].opaque && module is Some && module != tycons[id.0 as int].def_module_raw)
}

/// Access to a field of a record type gives the declared type of the field with
/// the arguments of the type in place of its parameters, and reports nothing. In
/// particular a field whose type is a parameter has the argument at its place,
/// and no parameter is left over.
pub proof fn fields_have_their_types(
    tycons: Seq<TyConDecl>,
    id: TyConId,
    args: Seq<Ty>,
    module: Option<u32>,
    schema: RecordSchema,
    k: int,
    span: Span,
)
    requires
        reaches(tycons, id, module, schema),
        schema.params@.len() == args.len(),
        0 <= k < schema.fields@.len(),
        forall|j: int|
            0 <= j < k ==> (#[trigger] schema.fields@[j]).name@ != schema.fields@[k].name@,
    ensures
        ({
            let f = schema.fields@[k];
            let (t, d) = field_access(Ty::Con(id, args), f.name@, span, tycons, module);
            &&& d is None
            &&& t == given(f.ty@, schema.params@, args)
            &&& forall|i: int|
                0 <= i < args.len() && f.ty@ == Ty::Var(#[trigger] schema.params@[i]) && (forall|
                    j: int,
                |
                    0 <= j < i ==> #[trigger] schema.params@[j] != schema.params@[i]) ==> t
                    == args[i]
            &&& forall|w: TyVid| #[trigger]
                occurs(w, t) ==> occurs(w, f.ty@) && !schema.params@.contains(w) || exists|i: int|
                    0 <= i < args.len() && occurs(w, #[trigger] args[i])
            &&& f.ty@ matches Ty::Con(c, sub) ==> (t matches Ty::Con(e, _) && e == c)
        }),
{
    let f = schema.fields@[k];
    let known = declared_fields(schema.fields@);
    assert forall|j: int| 0 <= j < k implies (#[trigger] known[j]).0 != f.name@ by {
        assert(schema.fields@[j].name@ != f.name@);
    }
    fields_are_found(known, f.name@, k);
    let t = given(f.ty@, schema.params@, args);
    assert forall|w: TyVid| #[trigger] occurs(w, t) implies occurs(w, f.ty@)
        && !schema.params@.contains(w) || exists|i: int|
        0 <= i < args.len() && occurs(w, #[trigger] args[i]) by {
        given_vars(f.ty@, schema.params@, args, w);
    }
    assert forall|i: int|
        0 <= i < args.len() && f.ty@ == Ty::Var(#[trigger] schema.params@[i]) && (forall|j: int|
            0 <= j < i ==> #[trigger] schema.params@[j] != schema.params@[i]) implies t
        == args[i] by {
        position_found(schema.params@, i);
    }
}

/// A field that a record does not have is reported under its name, a field of an
/// opaque type that is out of reach is reported, and the type is then an error.
pub proof fn missing_fields_are_reported(
    tycons: Seq<TyConDecl>,
    id: TyConId,
    args: Seq<Ty>,
    module: Option<u32>,
    schema: RecordSchema,
    field: Seq<char>,
    span: Span,
)
    requires
        id.0 < tycons.len(),
        tycons[id.0 as int].kind == TyConKind::Record(schema),
    ensures
        ({
            let (t, d) = field_access(Ty::Con(id, args), field, span, tycons, module);
            let decl = tycons[id.0 as int];
            &&& reaches(tycons, id, module, schema) && (forall|j: int|
                0 <= j < schema.fields@.len() ==> (#[trigger] schema.fields@[j]).name@ != field)
                ==> t == Ty::Error && (d matches Some(
                Diag::UnknownField { record, field: f, suggestions: _, span: at },
            ) && record == decl.name@ && f == field && at == span)
            &&& !reaches(tycons, id, module, schema) ==> t == Ty::Error && d == Some(
                Diag::Opaque { record: decl.name@, field, span },
            )
        }),
{
    let known = declared_fields(schema.fields@);
    if forall|j: int|
        0 <= j < schema.fields@.len() ==> (#[trigger] schema.fields@[j]).name@ != field {
        assert forall|j: int| 0 <= j < known.len() implies (#[trigger] known[j]).0 != field by {
            assert(schema.fields@[j].name@ != field);
        }
        missing_fields_are_not_found(known, field);
    }
}

/// A record without a name has the fields that its type says, and what is no
/// record has none.
pub proof fn rows_have_their_fields(
    fields: Seq<(Seq<char>, Ty)>,
    tail: RowTail,
    tycons: Seq<TyConDecl>,
    module: Option<u32>,
    span: Span,
    k: int,
    other: Ty,
)
    requires
        0 <= k < fields.len(),
        forall|j: int| 0 <= j < k ==> (#[trigger] fields[j]).0 != fields[k].0,
    ensures
        field_access(Ty::Record { fields, tail }, fields[k].0, span, tycons, module) == (
            fields[k].1,
            None::<Diag>,
        ),
        other is Fn || other is Tuple || other is Rigid ==> field_access(
            other,
            fields[k].0,
            span,
            tycons,
            module,
        ) == (Ty::Error, Some(Diag::NonRecord { ty: Desc::Ty(other), span })),
        other is Var || other is Error ==> field_access(
            other,
            fields[k].0,
            span,
            tycons,
            module,
        ) == (Ty::Error, None::<Diag>),
{
    fields_are_found(fields, fields[k].0, k);
}

/// An update asks of a field the same type that access to it gives.
pub proof fn updates_agree_with_access(
    base: Ty,
    tycons: Seq<TyConDecl>,
    field: Seq<char>,
    span: Span,
)
    requires
        base is Con || base is Record,
    ensures
        want_of(base, tycons, field) matches Some(t) ==> field_access(
            base,
            field,
            span,
            tycons,
            None,
        ) == (t, None::<Diag>),
        want_of(base, tycons, field) is None ==> field_access(
            base,
            field,
            span,
            tycons,
            None,
        ).1 is Some,
{
}

/// An initialiser is found by the name of its field, the first one where there
/// are more.
pub proof fn initialisers_are_found(inits: Seq<FieldInit>, name: Seq<char>, i: int)
    requires
        0 <= i < inits.len(),
        inits[i].name.text@ == name,
        forall|j: int| 0 <= j < i ==> (#[trigger] inits[j]).name.text@ != name,
    ensures
        init_of(inits, name) == Some(inits[i]),
    decreases i,
{
    if i > 0 {
        assert(inits[0].name.text@ != name);
        assert forall|j: int| 0 <= j < i - 1 implies (#[trigger] inits.skip(1)[j]).name.text@
            != name by {
            assert(inits[j + 1].name.text@ != name);
        }
        initialisers_are_found(inits.skip(1), name, i - 1);
    }
}

/// A field without an initialiser is not found.
pub proof fn missing_initialisers_are_not_found(inits: Seq<FieldInit>, name: Seq<char>)
    requires
        forall|j: int| 0 <= j < inits.len() ==> (#[trigger] inits[j]).name.text@ != name,
    ensures
        init_of(inits, name) is None,
    decreases inits.len(),
{
    if inits.len() > 0 {
        assert(inits[0].name.text@ != name);
        assert forall|j: int|
            0 <= j < inits.len() - 1 implies (#[trigger] inits.skip(1)[j]).name.text@ != name by {
            assert(inits[j + 1].name.text@ != name);
        }
        missing_initialisers_are_not_found(inits.skip(1), name);
    }
}

/// A declared field that is not initialised is reported, and spoils the record.
pub proof fn uninitialised_fields_are_reported<F: Fn(InferCtx, &Expr) -> (InferCtx, Type)>(
    infer: F,
    c: InferCtx,
    d: InferCtx,
    record: Seq<char>,
    inits: Seq<FieldInit>,
    field: (Seq<char>, Ty),
    span: Span,
    was: bool,
    ok: bool,
)
    requires
        field_built(infer, c, d, record, inits, field, span, was, ok),
        forall|j: int| 0 <= j < inits.len() ==> (#[trigger] inits[j]).name.text@ != field.0,
    ensures
        !ok,
        diags(d.errors@) == diags(c.errors@).push(
            Diag::MissingField { record, field: field.0, span },
        ),
{
    missing_initialisers_are_not_found(inits, field.0);
}

/// An initialiser of a field that the record does not have is reported, and
/// nothing is reported where there is none.
pub proof fn unknown_initialisers_are_reported(
    record: Seq<char>,
    known: Seq<(Seq<char>, Ty)>,
    inits: Seq<FieldInit>,
)
    ensures
        unknown_reports(record, known, inits).len() == 0 <==> forall|i: int|
            0 <= i < inits.len() ==> exists|k: int|
                0 <= k < known.len() && (#[trigger] known[k]).0 == (
                #[trigger] inits[i]).name.text@,
        forall|k: int|
            0 <= k < unknown_reports(record, known, inits).len() ==> ((#[trigger] unknown_reports(
                record,
                known,
                inits,
            )[k]) matches Diag::UnknownField { record: r, field, suggestions: _, span: _ } && r
                == record && forall|j: int|
                0 <= j < known.len() ==> (#[trigger] known[j]).0 != field),
    decreases inits.len(),
{
    if inits.len() > 0 {
        let less = inits.drop_last();
        unknown_initialisers_are_reported(record, known, less);
        let name = inits.last().name.text@;
        let there = exists|k: int| 0 <= k < known.len() && (#[trigger] known[k]).0 == name;
        if there {
            let k = choose|k: int| 0 <= k < known.len() && (#[trigger] known[k]).0 == name;
            first_is_found(known, name, k);
        } else {
            missing_fields_are_not_found(known, name);
        }
        if unknown_reports(record, known, inits).len() == 0 {
            assert forall|i: int| 0 <= i < inits.len() implies exists|k: int|
                0 <= k < known.len() && (#[trigger] known[k]).0 == (
                #[trigger] inits[i]).name.text@ by {
                if i < less.len() {
                    assert(less[i] == inits[i]);
                }
            }
        }
        if forall|i: int|
            0 <= i < inits.len() ==> exists|k: int|
                0 <= k < known.len() && (#[trigger] known[k]).0 == (
                #[trigger] inits[i]).name.text@ {
            assert(inits[inits.len() - 1] == inits.last());
            assert forall|i: int| 0 <= i < less.len() implies exists|k: int|
                0 <= k < known.len() && (#[trigger] known[k]).0 == (
                #[trigger] less[i]).name.text@ by {
                assert(inits[i] == less[i]);
            }
        }
    }
}

proof fn first_is_found(fs: Seq<(Seq<char>, Ty)>, label: Seq<char>, k: int)
    requires
        0 <= k < fs.len(),
        fs[k].0 == label,
    ensures
        find_field(fs, label) is Some,
    decreases fs.len(),
{
    if fs[0].0 != label {
        assert(fs.skip(1)[k - 1].0 == label);
        first_is_found(fs.skip(1), label, k - 1);
    }
}

/// A pattern that leaves nothing open must name every declared field: those that
/// it leaves out are reported, and nothing else.
pub proof fn patterns_name_all_fields(
    record: Seq<char>,
    fields: Seq<RecordField>,
    fps: Seq<FieldPattern>,
    span: Span,
)
    ensures
        missing_reports(record, fields, fps, span).len() == 0 <==> forall|i: int|
            0 <= i < fields.len() ==> exists|k: int|
                0 <= k < fps.len() && (#[trigger] fps[k]).name.text@ == (
                #[trigger] fields[i]).name@,
        forall|k: int|
            0 <= k < missing_reports(record, fields, fps, span).len() ==> ((
            #[trigger] missing_reports(record, fields, fps, span)[k]) matches Diag::MissingField {
                record: r,
                field,
                span: at,
            } && r == record && at == span && exists|i: int|
                0 <= i < fields.len() && (#[trigger] fields[i]).name@ == field),
    decreases fields.len(),
{
    if fields.len() > 0 {
        let less = fields.drop_last();
        patterns_name_all_fields(record, less, fps, span);
        let before = missing_reports(record, less, fps, span);
        let after = missing_reports(record, fields, fps, span);
        let n = fields.len() - 1;
        assert(fields[n] == fields.last());
        if after.len() == 0 {
            assert forall|i: int| 0 <= i < fields.len() implies exists|k: int|
                0 <= k < fps.len() && (#[trigger] fps[k]).name.text@ == (
                #[trigger] fields[i]).name@ by {
                if i < n {
                    assert(less[i] == fields[i]);
                } else {
                    assert(names_field(fps, fields[n].name@));
                }
            }
        }
        if forall|i: int|
            0 <= i < fields.len() ==> exists|k: int|
                0 <= k < fps.len() && (#[trigger] fps[k]).name.text@ == (
                #[trigger] fields[i]).name@ {
            assert forall|i: int| 0 <= i < less.len() implies exists|k: int|
                0 <= k < fps.len() && (#[trigger] fps[k]).name.text@ == (
                #[trigger] less[i]).name@ by {
                assert(fields[i] == less[i]);
            }
            assert(fields[n].name@ == fields[n].name@);
            assert(names_field(fps, fields[n].name@));
        }
        assert forall|k: int| 0 <= k < after.len() implies ((
        #[trigger] after[k]) matches Diag::MissingField { record: r, field, span: at } && r
            == record && at == span && exists|i: int|
            0 <= i < fields.len() && (#[trigger] fields[i]).name@ == field) by {
            if k < before.len() {
                assert(after[k] == before[k]);
                let field = before[k]->MissingField_field;
                let i = choose|i: int| 0 <= i < less.len() && (#[trigger] less[i]).name@ == field;
                assert(fields[i].name@ == field);
            } else {
                assert(fields[n].name@ == after[k]->MissingField_field);
            }
        }
    }
}

} // verus!

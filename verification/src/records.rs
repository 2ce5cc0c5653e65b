use vstd::prelude::*;

use crate::ast::{Expr, FieldInit, FieldPattern, Ident, Pattern};
use crate::ctx::{in_scope, with_binding, InferCtx};
use crate::decls::{affordable, grew};
use crate::diag::{clash_diag, diag, diags, nowhere, tells_clash, Desc, Diag};
use crate::error::{TypeDesc, TypeError};
use crate::instantiate::{
    after_instantiate, deferred, fresh_vars, instantiate, instantiated, monoscheme, with_slots,
};
use crate::qexpr::{field_named, find_field, fits};
use crate::render::{declared_fields, emit_internal, render_type_with, type_text};
use crate::seeds::fresh_n;
use crate::suggest::{field_suggestions, label_names};
use crate::table::{resolve, Table};
use crate::text::{same_text, text3};
use crate::types::{
    clone_types, field_views, mono, preds, views, BuiltinTyCons, Poly, RecordField, RecordSchema,
    Span, Ty, TyConDecl, TyConId, TyConKind, TyVid, Type,
};
use crate::unify::{labels, unified, unified_agree, unify};

verus! {

broadcast use {crate::types::group_views, crate::diag::diags_push};


/// A diagnostic of unification moved to a place: a mismatch and an infinite
/// type. Others stay where they are.
pub open spec fn respan(d: Diag, at: Span) -> Diag {
    match d {
        Diag::Mismatch { expected, found, span, hint } => Diag::Mismatch {
            expected,
            found,
            span: at,
            hint,
        },
        Diag::Occurs { var, ty, span } => Diag::Occurs { var, ty, span: at },
        _ => d,
    }
}

/// Moves a diagnostic of unification, which points nowhere, to a place.
#[must_use]
pub fn attach_span_pub(e: TypeError, span: Span) -> (r: TypeError)
    ensures
        diag(r) == respan(diag(e), span),
        !(e is TypeMismatch) && !(e is OccursCheck) ==> r == e,
{
    match e {
        TypeError::TypeMismatch { expected, found, span: _, hint } => TypeError::TypeMismatch {
            expected,
            found,
            span,
            hint,
        },
        TypeError::OccursCheck { var, ty, span: _ } => TypeError::OccursCheck { var, ty, span },
        other => other,
    }
}


/// Where a variable stands in a list, first.
pub open spec fn position(vars: Seq<TyVid>, v: TyVid) -> Option<nat>
    decreases vars.len(),
{
    if vars.len() == 0 {
        None
    } else if vars[0] == v {
        Some(0)
    } else {
        match position(vars.skip(1), v) {
            Some(i) => Some(i + 1),
            None => None,
        }
    }
}

/// A declared type with the arguments of its constructor in place of the
/// parameters, wherever they stand in it.
pub open spec fn given(t: Ty, params: Seq<TyVid>, args: Seq<Ty>) -> Ty
    decreases t,
{
    match t {
        Ty::Var(v) => match position(params, v) {
            Some(i) => args[i as int],
            None => t,
        },
        Ty::Con(id, sub) => Ty::Con(id, given_all(sub, params, args)),
        Ty::Fn { params: ps, ret, caps } => Ty::Fn {
            params: given_all(ps, params, args),
            ret: Box::new(given(*ret, params, args)),
            caps,
        },
        Ty::Tuple(elems) => Ty::Tuple(given_all(elems, params, args)),
        Ty::Record { fields, tail } => Ty::Record { fields: given_row(fields, params, args), tail },
        Ty::Alias { name, body } => Ty::Alias { name, body: Box::new(given(*body, params, args)) },
        _ => t,
    }
}

pub open spec fn given_all(ts: Seq<Ty>, params: Seq<TyVid>, args: Seq<Ty>) -> Seq<Ty>
    decreases ts,
{
    Seq::new(
        ts.len(),
        |i: int|
            if 0 <= i < ts.len() {
                given(ts[i], params, args)
            } else {
                Ty::Error
            },
    )
}

pub open spec fn given_row(fs: Seq<(Seq<char>, Ty)>, params: Seq<TyVid>, args: Seq<Ty>) -> Seq<
    (Seq<char>, Ty),
>
    decreases fs,
{
    Seq::new(
        fs.len(),
        |i: int|
            if 0 <= i < fs.len() {
                (fs[i].0, given(fs[i].1, params, args))
            } else {
                (Seq::empty(), Ty::Error)
            },
    )
}

/// There is an argument for every parameter that a declared type mentions.
pub open spec fn covered(t: Ty, params: Seq<TyVid>, args: nat) -> bool
    decreases t,
{
    match t {
        Ty::Var(v) => match position(params, v) {
            Some(i) => i < args,
            None => true,
        },
        Ty::Con(id, sub) => all_covered(sub, params, args),
        Ty::Fn { params: ps, ret, caps } => all_covered(ps, params, args) && covered(
            *ret,
            params,
            args,
        ),
        Ty::Tuple(elems) => all_covered(elems, params, args),
        Ty::Record { fields, tail } => row_covered(fields, params, args),
        Ty::Alias { name, body } => covered(*body, params, args),
        _ => true,
    }
}

pub open spec fn all_covered(ts: Seq<Ty>, params: Seq<TyVid>, args: nat) -> bool
    decreases ts,
{
    forall|i: int| 0 <= i < ts.len() ==> covered(#[trigger] ts[i], params, args)
}

pub open spec fn row_covered(fs: Seq<(Seq<char>, Ty)>, params: Seq<TyVid>, args: nat) -> bool
    decreases fs,
{
    forall|i: int| 0 <= i < fs.len() ==> covered((#[trigger] fs[i]).1, params, args)
}

proof fn position_bound(vars: Seq<TyVid>, v: TyVid)
    ensures
        position(vars, v) matches Some(i) ==> i < vars.len(),
    decreases vars.len(),
{
    if vars.len() > 0 && vars[0] != v {
        position_bound(vars.skip(1), v);
    }
}

/// With an argument for every parameter there is one for every one that is
/// mentioned.
pub proof fn enough_covered(t: Ty, params: Seq<TyVid>, args: nat)
    requires
        params.len() <= args,
    ensures
        covered(t, params, args),
    decreases t,
{
    match t {
        Ty::Var(v) => position_bound(params, v),
        Ty::Con(_, sub) => enough_all_covered(sub, params, args),
        Ty::Fn { params: ps, ret, caps } => {
            enough_all_covered(ps, params, args);
            enough_covered(*ret, params, args);
        },
        Ty::Tuple(elems) => enough_all_covered(elems, params, args),
        Ty::Record { fields, tail } => enough_row_covered(fields, params, args),
        Ty::Alias { name, body } => enough_covered(*body, params, args),
        _ => {},
    }
}

proof fn enough_all_covered(ts: Seq<Ty>, params: Seq<TyVid>, args: nat)
    requires
        params.len() <= args,
    ensures
        all_covered(ts, params, args),
    decreases ts,
{
    assert forall|i: int| 0 <= i < ts.len() implies covered(#[trigger] ts[i], params, args) by {
        enough_covered(ts[i], params, args);
    }
}

proof fn enough_row_covered(fs: Seq<(Seq<char>, Ty)>, params: Seq<TyVid>, args: nat)
    requires
        params.len() <= args,
    ensures
        row_covered(fs, params, args),
    decreases fs,
{
    assert forall|i: int| 0 <= i < fs.len() implies covered((#[trigger] fs[i]).1, params, args) by {
        enough_covered(fs[i].1, params, args);
    }
}

fn find_var(vars: &Vec<TyVid>, v: TyVid) -> (r: Option<usize>)
    ensures
        r is Some <==> position(vars@, v) is Some,
        r matches Some(i) ==> position(vars@, v) == Some(i as nat),
{
    let mut i: usize = 0;
    assert(vars@.skip(0) =~= vars@);
    while i < vars.len()
        invariant
            i <= vars@.len(),
            position(vars@, v) == match position(vars@.skip(i as int), v) {
                Some(k) => Some(k + i as nat),
                None => None,
            },
        decreases vars@.len() - i,
    {
        assert(vars@.skip(i as int)[0] == vars@[i as int]);
        assert(vars@.skip(i as int).skip(1) =~= vars@.skip(i + 1));
        if vars[i].0 == v.0 {
            return Some(i);
        }
        i = i + 1;
    }
    None
}

/// Puts the arguments of a constructor in place of its parameters.
#[must_use]
pub fn subst_type(ty: &Type, params: &Vec<TyVid>, args: &Vec<Type>) -> (r: Type)
    requires
        covered(ty@, params@, args@.len()),
    ensures
        r@ == given(ty@, params@, views(args@)),
    decreases ty,
{
    match ty {
        Type::Var(v) => match find_var(params, *v) {
            Some(i) => args[i].clone(),
            None => ty.clone(),
        },
        Type::Con(id, sub) => {
            assert(ty@ == Ty::Con(*id, views(sub@)));
            Type::Con(*id, subst_all(sub, params, args))
        },
        Type::Fn { params: ps, ret, caps } => {
            assert(ty@ == Ty::Fn { params: views(ps@), ret: Box::new(ret@), caps: *caps });
            Type::Fn {
                params: subst_all(ps, params, args),
                ret: Box::new(subst_type(ret, params, args)),
                caps: *caps,
            }
        },
        Type::Tuple(elems) => {
            assert(ty@ == Ty::Tuple(views(elems@)));
            Type::Tuple(subst_all(elems, params, args))
        },
        Type::Record { fields, tail } => {
            assert(ty@ == Ty::Record { fields: field_views(fields@), tail: *tail });
            Type::Record { fields: subst_row(fields, params, args), tail: *tail }
        },
        Type::Alias { name, body } => Type::Alias {
            name: *name,
            body: Box::new(subst_type(body, params, args)),
        },
        _ => ty.clone(),
    }
}

fn subst_all(ts: &Vec<Type>, params: &Vec<TyVid>, args: &Vec<Type>) -> (r: Vec<Type>)
    requires
        all_covered(views(ts@), params@, args@.len()),
    ensures
        views(r@) == given_all(views(ts@), params@, views(args@)),
    decreases ts,
{
    let mut out: Vec<Type> = Vec::new();
    let mut i: usize = 0;
    while i < ts.len()
        invariant
            i <= ts@.len(),
            all_covered(views(ts@), params@, args@.len()),
            out@.len() == i,
            forall|k: int|
                0 <= k < i ==> (#[trigger] out@[k])@ == given(ts@[k]@, params@, views(args@)),
        decreases ts@.len() - i,
    {
        assert(views(ts@)[i as int] == ts@[i as int]@);
        out.push(subst_type(&ts[i], params, args));
        i = i + 1;
    }
    assert(views(out@) =~= given_all(views(ts@), params@, views(args@)));
    out
}

fn subst_row(fs: &Vec<(String, Type)>, params: &Vec<TyVid>, args: &Vec<Type>) -> (r: Vec<
    (String, Type),
>)
    requires
        row_covered(field_views(fs@), params@, args@.len()),
    ensures
        field_views(r@) == given_row(field_views(fs@), params@, views(args@)),
    decreases fs,
{
    let mut out: Vec<(String, Type)> = Vec::new();
    let mut i: usize = 0;
    while i < fs.len()
        invariant
            i <= fs@.len(),
            row_covered(field_views(fs@), params@, args@.len()),
            out@.len() == i,
            forall|k: int|
                0 <= k < i ==> (#[trigger] out@[k]).0@ == fs@[k].0@ && out@[k].1@ == given(
                    fs@[k].1@,
                    params@,
                    views(args@),
                ),
        decreases fs@.len() - i,
    {
        assert(field_views(fs@)[i as int] == (fs@[i as int].0@, fs@[i as int].1@));
        out.push((fs[i].0.clone(), subst_type(&fs[i].1, params, args)));
        i = i + 1;
    }
    assert(field_views(out@) =~= given_row(field_views(fs@), params@, views(args@)));
    out
}

/// The declared field with a name.
fn schema_field<'a>(schema: &'a RecordSchema, name: &str) -> (r: Option<&'a RecordField>)
    ensures
        r is Some <==> find_field(declared_fields(schema.fields@), name@) is Some,
        r matches Some(f) ==> find_field(declared_fields(schema.fields@), name@) == Some(f.ty@),
{
    let ghost all = declared_fields(schema.fields@);
    let mut i: usize = 0;
    assert(all.skip(0) =~= all);
    while i < schema.fields.len()
        invariant
            i <= schema.fields@.len(),
            all == declared_fields(schema.fields@),
            find_field(all, name@) == find_field(all.skip(i as int), name@),
        decreases schema.fields@.len() - i,
    {
        assert(all.skip(i as int)[0] == all[i as int]);
        assert(all.skip(i as int).skip(1) =~= all.skip(i + 1));
        if same_text(schema.fields[i].name.as_str(), name) {
            return Some(&schema.fields[i]);
        }
        i = i + 1;
    }
    None
}

/// A record without the field that is asked of it.
pub open spec fn unknown_field(
    record: Seq<char>,
    field: Seq<char>,
    known: Seq<(Seq<char>, Ty)>,
    span: Span,
) -> Diag {
    Diag::UnknownField { record, field, suggestions: labels(known), span }
}

/// The fields of `decl` are out of reach from the module that is being checked.
pub open spec fn hidden(decl: TyConDecl, module: Option<u32>) -> bool {
    decl.opaque && module is Some && module != decl.def_module_raw
}

/// Whether the fields of an opaque type are reached from a module other than
/// the one that declares it. Without a current module there is nothing to hold
/// against.
fn opaque_field_violation(ctx: &InferCtx, decl: &TyConDecl) -> (r: bool)
    ensures
        r == hidden(*decl, ctx.current_module_raw),
{
    if !decl.opaque {
        return false;
    }
    match (ctx.current_module_raw, decl.def_module_raw) {
        (Some(m), Some(d)) => m != d,
        (Some(_), None) => true,
        (None, _) => false,
    }
}

/// What `base.field` comes to, for a base of type `t` with everything known
/// filled in: the type of the field, nothing where the base is not known, or a
/// diagnostic.
pub open spec fn field_access(
    t: Ty,
    field: Seq<char>,
    span: Span,
    tycons: Seq<TyConDecl>,
    module: Option<u32>,
) -> (Ty, Option<Diag>) {
    match t {
        Ty::Var(_) => (Ty::Error, None),
        Ty::Error => (Ty::Error, None),
        Ty::Record { fields, tail } => match find_field(fields, field) {
            Some(f) => (f, None),
            None => (
                Ty::Error,
                Some(unknown_field(type_text(t, tycons), field, fields, span)),
            ),
        },
        Ty::Con(id, args) => match record_of(tycons, id) {
            Some(schema) => {
                let decl = tycons[id.0 as int];
                let known = declared_fields(schema.fields@);
                if hidden(decl, module) {
                    (Ty::Error, Some(Diag::Opaque { record: decl.name@, field, span }))
                } else {
                    match find_field(known, field) {
                        Some(f) => (given(f, schema.params@, args), None),
                        None => (Ty::Error, Some(unknown_field(decl.name@, field, known, span))),
                    }
                }
            },
            None => (Ty::Error, Some(Diag::NonRecord { ty: Desc::Ty(t), span })),
        },
        _ => (Ty::Error, Some(Diag::NonRecord { ty: Desc::Ty(t), span })),
    }
}

/// The declaration of a record type.
pub open spec fn record_of(tycons: Seq<TyConDecl>, id: TyConId) -> Option<RecordSchema> {
    if id.0 < tycons.len() {
        match tycons[id.0 as int].kind {
            TyConKind::Record(schema) => Some(schema),
            _ => None,
        }
    } else {
        None
    }
}

/// A type has an argument for every parameter that its field mentions.
pub open spec fn field_covered(t: Ty, field: Seq<char>, tycons: Seq<TyConDecl>) -> bool {
    t matches Ty::Con(id, args) ==> (record_of(tycons, id) matches Some(schema) ==> (find_field(
        declared_fields(schema.fields@),
        field,
    ) matches Some(f) ==> covered(f, schema.params@, args.len())))
}

/// One more diagnostic, where there is one.
pub open spec fn also(ds: Seq<Diag>, d: Option<Diag>) -> Seq<Diag> {
    match d {
        Some(x) => ds.push(x),
        None => ds,
    }
}

fn find_record<'a>(tycons: &'a Vec<TyConDecl>, id: TyConId) -> (r: Option<
    (&'a TyConDecl, &'a RecordSchema),
>)
    ensures
        r is Some <==> record_of(tycons@, id) is Some,
        r matches Some((d, s)) ==> record_of(tycons@, id) == Some(*s) && *d == tycons@[id.0 as int],
{
    let at: usize = id.0 as usize;
    if at < tycons.len() {
        match &tycons[at].kind {
            TyConKind::Record(schema) => Some((&tycons[at], schema)),
            _ => None,
        }
    } else {
        None
    }
}

fn non_record(ctx: &mut InferCtx, t: Type, span: Span) -> (r: Type)
    ensures
        r@ == Ty::Error,
        diags(final(ctx).errors@) == diags(old(ctx).errors@).push(
            Diag::NonRecord { ty: Desc::Ty(t@), span },
        ),
        *final(ctx) == (InferCtx { errors: final(ctx).errors, ..*old(ctx) }),
{
    ctx.errors.push(TypeError::WithOnNonRecord { ty: TypeDesc::Ty(t), span });
    Type::Error
}

/// The type of `base.field`.
pub fn infer_field_access(
    ctx: &mut InferCtx,
    _b: &BuiltinTyCons,
    base_ty: &Type,
    field_name: &Ident,
    field_span: Span,
    tycons: &Vec<TyConDecl>,
) -> (r: Type)
    requires
        field_covered(resolve(old(ctx).table(), base_ty@), field_name.text@, tycons@),
    ensures
        ({
            let (t, d) = field_access(
                resolve(old(ctx).table(), base_ty@),
                field_name.text@,
                field_span,
                tycons@,
                old(ctx).current_module_raw,
            );
            &&& r@ == t
            &&& diags(final(ctx).errors@) == also(diags(old(ctx).errors@), d)
        }),
        *final(ctx) == (InferCtx { errors: final(ctx).errors, ..*old(ctx) }),
{
    let base = ctx.deep_resolve(base_ty);
    match &base {
        Type::Var(_) => Type::Error,
        Type::Error => Type::Error,
        Type::Record { fields, tail } => {
            assert(base@ == Ty::Record { fields: field_views(fields@), tail: *tail });
            match field_named(fields, field_name.text.as_str()) {
                Some(t) => t.clone(),
                None => {
                    let record = render_type_with(&base, tycons);
                    ctx.errors.push(
                        TypeError::UnknownField {
                            record,
                            field: field_name.text.clone(),
                            suggestions: label_names(fields),
                            span: field_span,
                        },
                    );
                    Type::Error
                },
            }
        },
        Type::Con(id, args) => {
            assert(base@ == Ty::Con(*id, views(args@)));
            match find_record(tycons, *id) {
                Some((decl, schema)) => {
                    if opaque_field_violation(ctx, decl) {
                        ctx.errors.push(
                            TypeError::OpaqueFieldAccess {
                                record: decl.name.clone(),
                                field: field_name.text.clone(),
                                span: field_span,
                            },
                        );
                        return Type::Error;
                    }
                    match schema_field(schema, field_name.text.as_str()) {
                        Some(f) => subst_type(&f.ty, &schema.params, args),
                        None => {
                            ctx.errors.push(
                                TypeError::UnknownField {
                                    record: decl.name.clone(),
                                    field: field_name.text.clone(),
                                    suggestions: field_suggestions(schema),
                                    span: field_span,
                                },
                            );
                            Type::Error
                        },
                    }
                },
                None => non_record(ctx, base.clone(), field_span),
            }
        },
        _ => non_record(ctx, base.clone(), field_span),
    }
}

/// The first initialiser of a field.
pub open spec fn init_of(inits: Seq<FieldInit>, name: Seq<char>) -> Option<FieldInit>
    decreases inits.len(),
{
    if inits.len() == 0 {
        None
    } else if inits[0].name.text@ == name {
        Some(inits[0])
    } else {
        init_of(inits.skip(1), name)
    }
}

fn find_init<'a>(inits: &'a Vec<FieldInit>, name: &str) -> (r: Option<&'a FieldInit>)
    ensures
        r is Some <==> init_of(inits@, name@) is Some,
        r matches Some(i) ==> init_of(inits@, name@) == Some(*i),
{
    let mut i: usize = 0;
    assert(inits@.skip(0) =~= inits@);
    while i < inits.len()
        invariant
            i <= inits@.len(),
            init_of(inits@, name@) == init_of(inits@.skip(i as int), name@),
        decreases inits@.len() - i,
    {
        assert(inits@.skip(i as int)[0] == inits@[i as int]);
        assert(inits@.skip(i as int).skip(1) =~= inits@.skip(i + 1));
        if same_text(inits[i].name.text.as_str(), name) {
            return Some(&inits[i]);
        }
        i = i + 1;
    }
    None
}

/// What is said of the initialisers of fields that are not there, in order.
pub open spec fn unknown_reports(
    record: Seq<char>,
    known: Seq<(Seq<char>, Ty)>,
    inits: Seq<FieldInit>,
) -> Seq<Diag>
    decreases inits.len(),
{
    if inits.len() == 0 {
        Seq::empty()
    } else {
        let fi = inits.last();
        let before = unknown_reports(record, known, inits.drop_last());
        if find_field(known, fi.name.text@) is None {
            before.push(unknown_field(record, fi.name.text@, known, fi.span))
        } else {
            before
        }
    }
}

fn report_unknown(ctx: &mut InferCtx, record: &str, schema: &RecordSchema, inits: &Vec<FieldInit>)
    ensures
        diags(final(ctx).errors@) == diags(old(ctx).errors@) + unknown_reports(
            record@,
            declared_fields(schema.fields@),
            inits@,
        ),
        *final(ctx) == (InferCtx { errors: final(ctx).errors, ..*old(ctx) }),
{
    let ghost known = declared_fields(schema.fields@);
    let ghost ds = diags(ctx.errors@);
    let mut i: usize = 0;
    assert(ds + unknown_reports(record@, known, inits@.take(0)) =~= ds);
    while i < inits.len()
        invariant
            i <= inits@.len(),
            known == declared_fields(schema.fields@),
            ds == diags(old(ctx).errors@),
            diags(ctx.errors@) == ds + unknown_reports(record@, known, inits@.take(i as int)),
            *ctx == (InferCtx { errors: ctx.errors, ..*old(ctx) }),
        decreases inits@.len() - i,
    {
        let fi = &inits[i];
        let ghost before = unknown_reports(record@, known, inits@.take(i as int));
        assert(inits@.take(i + 1).drop_last() =~= inits@.take(i as int));
        if schema_field(schema, fi.name.text.as_str()).is_none() {
            ctx.errors.push(
                TypeError::UnknownField {
                    record: record.to_owned(),
                    field: fi.name.text.clone(),
                    suggestions: field_suggestions(schema),
                    span: fi.span,
                },
            );
            let ghost d = unknown_field(record@, fi.name.text@, known, fi.span);
            assert((ds + before).push(d) =~= ds + before.push(d));
        }
        i = i + 1;
    }
    assert(inits@.take(inits@.len() as int) =~= inits@);
}

/// `d` is `c` after a value of type `value` was put where one of type `want`
/// belongs: the types are made equal, or the clash is reported at a place.
pub open spec fn fitted(c: InferCtx, d: InferCtx, value: Ty, want: Ty, span: Span) -> bool {
    let (tb, clash) = unified(c.table(), value, want);
    &&& d.wf()
    &&& d.table() == tb
    &&& diags(d.errors@) == also(
        diags(c.errors@),
        match clash {
            Some(x) => Some(respan(clash_diag(x, nowhere()), span)),
            None => None,
        },
    )
    &&& d == (InferCtx { vars: d.vars, errors: d.errors, ..c })
}

/// Puts a value where one of a given type belongs, and says whether it is one.
pub(crate) fn fit_value(ctx: &mut InferCtx, value: &Type, want: &Type, span: Span) -> (r: bool)
    requires
        old(ctx).wf(),
    ensures
        fitted(*old(ctx), *final(ctx), value@, want@, span),
        r == (unified(old(ctx).table(), value@, want@).1 is None),
{
    match unify(&mut ctx.vars, value, want) {
        Ok(()) => true,
        Err(e) => {
            proof {
                tells_clash(e, unified(old(ctx).table(), value@, want@).1->0);
            }
            ctx.errors.push(attach_span_pub(e, span));
            false
        },
    }
}

/// `d` is `c`, and `t` the type, after the local that a field without a value
/// stands for was looked up.
pub open spec fn shorthand(
    c: InferCtx,
    d: InferCtx,
    fi: FieldInit,
    detail: Seq<char>,
    t: Ty,
) -> bool {
    match in_scope(c.env@, fi.name.text@) {
        Some(p) => {
            &&& d.wf()
            &&& t == instantiated(p, c.table().types.len(), c.table().caps.len())
            &&& d.table() == after_instantiate(c.table(), p)
            &&& preds(d.deferred_constraints@) == preds(c.deferred_constraints@) + deferred(
                p,
                c.table().types.len(),
            )
            &&& d == (InferCtx {
                vars: d.vars,
                deferred_constraints: d.deferred_constraints,
                ..c
            })
        },
        None => {
            &&& t == Ty::Error
            &&& diags(d.errors@) == diags(c.errors@).push(Diag::Internal { detail, span: fi.span })
            &&& d == (InferCtx { errors: d.errors, ..c })
        },
    }
}

/// How many variables looking at a value may need, where an expression may need
/// as many as `cost` says.
pub open spec fn init_cost(
    env: Seq<Seq<(Seq<char>, Poly)>>,
    fi: FieldInit,
    cost: spec_fn(Expr) -> nat,
) -> nat {
    match fi.value {
        Some(e) => cost(e),
        None => shorthand_cost(env, fi),
    }
}

/// How many variables the local that a field without a value stands for needs.
pub open spec fn shorthand_cost(env: Seq<Seq<(Seq<char>, Poly)>>, fi: FieldInit) -> nat {
    match in_scope(env, fi.name.text@) {
        Some(p) => p.vars.len() + p.cap_vars.len(),
        None => 0,
    }
}

/// A field has a value: one that is written, or the local of its name.
pub open spec fn has_value(env: Seq<Seq<(Seq<char>, Poly)>>, fi: FieldInit) -> bool {
    fi.value is Some || in_scope(env, fi.name.text@) is Some
}

fn is_given(ctx: &InferCtx, fi: &FieldInit) -> (r: bool)
    ensures
        r == has_value(ctx.env@, *fi),
{
    if fi.value.is_some() {
        return true;
    }
    ctx.env.lookup(fi.name.text.as_str()).is_some()
}

/// Looks up the local that a field without a value stands for.
fn shorthand_value(ctx: &mut InferCtx, fi: &FieldInit, tail: &str) -> (r: Type)
    requires
        old(ctx).wf(),
        fi.value is None,
        fits(old(ctx).table(), shorthand_cost(old(ctx).env@, *fi)),
    ensures
        shorthand(
            *old(ctx),
            *final(ctx),
            *fi,
            "shorthand field '"@ + fi.name.text@ + tail@,
            r@,
        ),
        final(ctx).wf(),
{
    let found = match ctx.env.lookup(fi.name.text.as_str()) {
        Some(s) => Some(s.clone()),
        None => None,
    };
    match found {
        Some(s) => instantiate(ctx, &s),
        None => {
            let detail = text3("shorthand field '", fi.name.text.as_str(), tail);
            emit_internal(ctx, detail, fi.span)
        },
    }
}

/// Inference of values that can be relied on: it takes any context in order
/// with the names `env` in scope and room for what the expression costs, leaves
/// the names as they were, takes no diagnostic back and adds no more variables
/// than the expression costs.
pub open spec fn steady<F: Fn(InferCtx, &Expr) -> (InferCtx, Type)>(
    infer: F,
    env: Seq<Seq<(Seq<char>, Poly)>>,
    cost: spec_fn(Expr) -> nat,
) -> bool {
    &&& forall|c: InferCtx, e: &Expr|
        c.wf() && c.env@ == env && fits(c.table(), cost(*e)) ==> #[trigger] call_requires(
            infer,
            (c, e),
        )
    &&& forall|c: InferCtx, e: &Expr, out: (InferCtx, Type)| #[trigger]
        call_ensures(infer, (c, e), out) && c.wf() && c.env@ == env && fits(c.table(), cost(*e))
            ==> {
            &&& out.0.wf()
            &&& out.0.env@ == env
            &&& diags(c.errors@).is_prefix_of(diags(out.0.errors@))
            &&& out.0.table().types.len() <= c.table().types.len() + cost(*e)
            &&& out.0.table().caps.len() <= c.table().caps.len() + cost(*e)
        }
}

/// `d` is `c`, and `t` the type, after the value of a field was looked at.
pub open spec fn valued<F: Fn(InferCtx, &Expr) -> (InferCtx, Type)>(
    infer: F,
    c: InferCtx,
    d: InferCtx,
    fi: FieldInit,
    tail: Seq<char>,
    t: Ty,
) -> bool {
    match fi.value {
        Some(e) => exists|out: (InferCtx, Type)| #[trigger]
            call_ensures(infer, (c, &e), out) && d == out.0 && t == out.1@,
        None => shorthand(c, d, fi, "shorthand field '"@ + fi.name.text@ + tail, t),
    }
}

fn field_value<F: Fn(InferCtx, &Expr) -> (InferCtx, Type)>(
    ctx: InferCtx,
    fi: &FieldInit,
    tail: &str,
    infer: &F,
    Ghost(env): Ghost<Seq<Seq<(Seq<char>, Poly)>>>,
    Ghost(cost): Ghost<spec_fn(Expr) -> nat>,
    Ghost(n): Ghost<nat>,
) -> (r: (InferCtx, Type))
    requires
        ctx.wf(),
        ctx.env@ == env,
        fits(ctx.table(), n),
        init_cost(env, *fi, cost) <= n,
        steady(*infer, env, cost),
    ensures
        valued(*infer, ctx, r.0, *fi, tail@, r.1@),
        r.0.wf(),
        r.0.env@ == env,
        diags(ctx.errors@).is_prefix_of(diags(r.0.errors@)),
        fits(r.0.table(), (n - init_cost(env, *fi, cost)) as nat),
{
    match &fi.value {
        Some(e) => infer(ctx, e),
        None => {
            let mut ctx = ctx;
            let t = shorthand_value(&mut ctx, fi, tail);
            (ctx, t)
        },
    }
}

/// `d` is `c` after a declared field was given the value of its initialiser, or
/// was found to have none. All is `ok` where it was before and the field was
/// given a value of its type.
pub open spec fn field_built<F: Fn(InferCtx, &Expr) -> (InferCtx, Type)>(
    infer: F,
    c: InferCtx,
    d: InferCtx,
    record: Seq<char>,
    inits: Seq<FieldInit>,
    field: (Seq<char>, Ty),
    span: Span,
    was: bool,
    ok: bool,
) -> bool {
    match init_of(inits, field.0) {
        None => {
            &&& !ok
            &&& diags(d.errors@) == diags(c.errors@).push(
                Diag::MissingField { record, field: field.0, span },
            )
            &&& d == (InferCtx { errors: d.errors, ..c })
        },
        Some(fi) => exists|m: InferCtx, t: Ty| #[trigger]
            valued(infer, c, m, fi, "' not in scope"@, t) && fitted(m, d, t, field.1, fi.span)
                && ok == (was && has_value(c.env@, fi) && unified(m.table(), t, field.1).1 is None),
    }
}

/// `d` is `c` after the first `k` of the fields of a record were built, in
/// order; `ok` says that each of them was given a value of its type.
pub open spec fn fields_built<F: Fn(InferCtx, &Expr) -> (InferCtx, Type)>(
    infer: F,
    c: InferCtx,
    d: InferCtx,
    record: Seq<char>,
    inits: Seq<FieldInit>,
    fields: Seq<(Seq<char>, Ty)>,
    span: Span,
    k: nat,
    ok: bool,
) -> bool
    decreases k,
{
    if k == 0 || k > fields.len() {
        d == c && ok
    } else {
        let field = fields[k - 1];
        exists|m: InferCtx, was: bool| #[trigger]
            field_built(infer, m, d, record, inits, field, span, was, ok) && fields_built(
                infer,
                c,
                m,
                record,
                inits,
                fields,
                span,
                (k - 1) as nat,
                was,
            )
    }
}

proof fn one_more_field<F: Fn(InferCtx, &Expr) -> (InferCtx, Type)>(
    infer: F,
    c: InferCtx,
    m: InferCtx,
    d: InferCtx,
    record: Seq<char>,
    inits: Seq<FieldInit>,
    fields: Seq<(Seq<char>, Ty)>,
    span: Span,
    k: nat,
    was: bool,
    ok: bool,
)
    requires
        k < fields.len(),
        fields_built(infer, c, m, record, inits, fields, span, k, was),
        field_built(infer, m, d, record, inits, fields[k as int], span, was, ok),
    ensures
        fields_built(infer, c, d, record, inits, fields, span, (k + 1) as nat, ok),
{
    assert(fields_built(infer, c, m, record, inits, fields, span, (k + 1 - 1) as nat, was));
}

/// How many variables the fields from `k` on may need.
pub open spec fn build_cost(
    env: Seq<Seq<(Seq<char>, Poly)>>,
    inits: Seq<FieldInit>,
    fields: Seq<(Seq<char>, Ty)>,
    cost: spec_fn(Expr) -> nat,
    k: nat,
) -> nat
    decreases fields.len() - k,
{
    if k >= fields.len() {
        0
    } else {
        build_cost(env, inits, fields, cost, k + 1) + match init_of(inits, fields[k as int].0) {
            Some(fi) => init_cost(env, fi, cost),
            None => 0,
        }
    }
}

/// The declared fields of a record with arguments in place of its parameters.
pub open spec fn given_fields(fs: Seq<RecordField>, params: Seq<TyVid>, args: Seq<Ty>) -> Seq<
    (Seq<char>, Ty),
> {
    Seq::new(fs.len(), |i: int| (fs[i].name@, given(fs[i].ty@, params, args)))
}

pub(crate) fn vars_as_types(vars: &Vec<TyVid>) -> (r: Vec<Type>)
    ensures
        views(r@) == as_types(vars@),
{
    let mut out: Vec<Type> = Vec::new();
    let mut i: usize = 0;
    while i < vars.len()
        invariant
            i <= vars@.len(),
            out@.len() == i,
            forall|k: int| 0 <= k < i ==> (#[trigger] out@[k])@ == Ty::Var(vars@[k]),
        decreases vars@.len() - i,
    {
        out.push(Type::Var(vars[i]));
        i = i + 1;
    }
    assert(views(out@) =~= as_types(vars@));
    out
}

/// Variables, as types.
pub open spec fn as_types(vars: Seq<TyVid>) -> Seq<Ty> {
    Seq::new(vars.len(), |i: int| Ty::Var(vars[i]))
}

/// `d` is `c`, and `t` the type, after a record was constructed: its parameters
/// are new variables, initialisers of fields that are not there are reported,
/// and then the declared fields are built one after the other. The type is an
/// error where a field is missing, is not one of the record's, or has a value of
/// another type.
pub open spec fn constructed<F: Fn(InferCtx, &Expr) -> (InferCtx, Type)>(
    infer: F,
    c: InferCtx,
    d: InferCtx,
    schema: RecordSchema,
    owner: TyConId,
    record: Seq<char>,
    inits: Seq<FieldInit>,
    span: Span,
    t: Ty,
) -> bool {
    let n = schema.params@.len();
    let args = as_types(fresh_vars(c.table().types.len(), n));
    let fields = given_fields(schema.fields@, schema.params@, args);
    let unknown = unknown_reports(record, declared_fields(schema.fields@), inits);
    exists|m: InferCtx, ok: bool|
        #![trigger fields_built(infer, m, d, record, inits, fields, span, fields.len(), ok)]
        {
            &&& t == if ok && unknown.len() == 0 {
                Ty::Con(owner, args)
            } else {
                Ty::Error
            }
            &&& m.wf()
            &&& m.table() == (Table { types: with_slots(c.table().types, n), ..c.table() })
            &&& diags(m.errors@) == diags(c.errors@) + unknown
            &&& m == (InferCtx { vars: m.vars, errors: m.errors, ..c })
            &&& fields_built(infer, m, d, record, inits, fields, span, fields.len(), ok)
        }
}

/// The type of a record expression: every declared field must have an
/// initialiser of its type, and no other field may have one. Where that is not
/// so, it is reported and the type is an error.
#[must_use]
pub fn infer_record_construction<F: Fn(InferCtx, &Expr) -> (InferCtx, Type)>(
    ctx: InferCtx,
    schema: &RecordSchema,
    owner_tycon: TyConId,
    record_name: &str,
    fields: &Vec<FieldInit>,
    span: Span,
    infer: F,
) -> (r: (InferCtx, Type))
    requires
        ctx.wf(),
        exists|cost: spec_fn(Expr) -> nat|
            {
                &&& #[trigger] steady(infer, ctx.env@, cost)
                &&& fits(
                    ctx.table(),
                    schema.params@.len() + build_cost(
                        ctx.env@,
                        fields@,
                        declared_fields(schema.fields@),
                        cost,
                        0,
                    ),
                )
            },
    ensures
        constructed(
            infer,
            ctx,
            r.0,
            *schema,
            owner_tycon,
            record_name@,
            fields@,
            span,
            r.1@,
        ),
        r.0.wf(),
        r.0.env@ == ctx.env@,
        diags(ctx.errors@).is_prefix_of(diags(r.0.errors@)),
{
    let ghost c0 = ctx;
    let ghost env = ctx.env@;
    let ghost known = declared_fields(schema.fields@);
    let ghost cost = choose|cost: spec_fn(Expr) -> nat|
        {
            &&& #[trigger] steady(infer, env, cost)
            &&& fits(ctx.table(), schema.params@.len() + build_cost(env, fields@, known, cost, 0))
        };
    let mut ctx = ctx;
    let fresh = fresh_n(&mut ctx, schema.params.len());
    let args = vars_as_types(&fresh);
    let reported: usize = ctx.errors.len();
    report_unknown(&mut ctx, record_name, schema, fields);
    let all_known = ctx.errors.len() == reported;
    let ghost c1 = ctx;
    let ghost want = given_fields(schema.fields@, schema.params@, views(args@));
    assert(views(args@).len() == schema.params@.len());
    let mut ok = true;
    let mut i: usize = 0;
    while i < schema.fields.len()
        invariant
            i <= schema.fields@.len(),
            known == declared_fields(schema.fields@),
            want == given_fields(schema.fields@, schema.params@, views(args@)),
            args@.len() == schema.params@.len(),
            steady(infer, env, cost),
            ctx.wf(),
            ctx.env@ == env,
            fits(ctx.table(), build_cost(env, fields@, known, cost, i as nat)),
            diags(c1.errors@).is_prefix_of(diags(ctx.errors@)),
            fields_built(infer, c1, ctx, record_name@, fields@, want, span, i as nat, ok),
        decreases schema.fields@.len() - i,
    {
        let f = &schema.fields[i];
        let ghost m = ctx;
        proof {
            enough_covered(f.ty@, schema.params@, args@.len());
            assert(known[i as int].0 == f.name@);
            assert(want[i as int] == (f.name@, given(f.ty@, schema.params@, views(args@))));
        }
        let field_ty = subst_type(&f.ty, &schema.params, &args);
        let this = match find_init(fields, f.name.as_str()) {
            None => {
                ctx.errors.push(
                    TypeError::MissingField {
                        record: record_name.to_owned(),
                        field: f.name.clone(),
                        span,
                    },
                );
                false
            },
            Some(fi) => {
                let ghost n = build_cost(env, fields@, known, cost, i as nat);
                let given = is_given(&ctx, fi);
                let (c, value_ty) = field_value(
                    ctx,
                    fi,
                    "' not in scope",
                    &infer,
                    Ghost(env),
                    Ghost(cost),
                    Ghost(n),
                );
                ctx = c;
                proof {
                    unified_agree(ctx.table(), value_ty@, field_ty@);
                }
                let fit = fit_value(&mut ctx, &value_ty, &field_ty, fi.span);
                given && fit
            },
        };
        let ghost was = ok;
        ok = ok && this;
        assert(field_built(infer, m, ctx, record_name@, fields@, want[i as int], span, was, ok));
        proof {
            one_more_field(infer, c1, m, ctx, record_name@, fields@, want, span, i as nat, was, ok);
        }
        i = i + 1;
    }
    if ok && all_known {
        (ctx, Type::Con(owner_tycon, args))
    } else {
        (ctx, Type::Error)
    }
}

/// The type that a field of a base of type `base` has.
pub open spec fn want_of(base: Ty, tycons: Seq<TyConDecl>, name: Seq<char>) -> Option<Ty> {
    match base {
        Ty::Record { fields, tail } => find_field(fields, name),
        Ty::Con(id, args) => match record_of(tycons, id) {
            Some(schema) => want_in(schema, args, name),
            None => None,
        },
        _ => None,
    }
}

/// The type that a field of a declared record with arguments has.
pub open spec fn want_in(schema: RecordSchema, args: Seq<Ty>, name: Seq<char>) -> Option<Ty> {
    match find_field(declared_fields(schema.fields@), name) {
        Some(f) => Some(given(f, schema.params@, args)),
        None => None,
    }
}

/// `d` is `c` after one field of an update was looked at. A field that a record
/// without a name does not have is reported in its turn. All is `ok` where it was
/// before, the base has the field and the value is of the field's type.
pub open spec fn used<F: Fn(InferCtx, &Expr) -> (InferCtx, Type)>(
    infer: F,
    c: InferCtx,
    d: InferCtx,
    base: Ty,
    tycons: Seq<TyConDecl>,
    fi: FieldInit,
    was: bool,
    ok: bool,
) -> bool {
    match want_of(base, tycons, fi.name.text@) {
        Some(want) => exists|m: InferCtx, t: Ty| #[trigger]
            valued(infer, c, m, fi, "' not in scope in with-update"@, t) && fitted(
                m,
                d,
                t,
                want,
                fi.span,
            ) && ok == (was && has_value(c.env@, fi) && unified(m.table(), t, want).1 is None),
        None => !ok && match base {
            Ty::Record { fields, tail } => {
                &&& diags(d.errors@) == diags(c.errors@).push(
                    unknown_field(type_text(base, tycons), fi.name.text@, fields, fi.span),
                )
                &&& d == (InferCtx { errors: d.errors, ..c })
            },
            _ => d == c,
        },
    }
}

/// `d` is `c` after the first `k` fields of an update were looked at, in order;
/// `ok` says that all was well with each of them.
pub open spec fn all_used<F: Fn(InferCtx, &Expr) -> (InferCtx, Type)>(
    infer: F,
    c: InferCtx,
    d: InferCtx,
    base: Ty,
    tycons: Seq<TyConDecl>,
    inits: Seq<FieldInit>,
    k: nat,
    ok: bool,
) -> bool
    decreases k,
{
    if k == 0 || k > inits.len() {
        d == c && ok
    } else {
        let fi = inits[k - 1];
        exists|m: InferCtx, was: bool| #[trigger]
            used(infer, m, d, base, tycons, fi, was, ok) && all_used(
                infer,
                c,
                m,
                base,
                tycons,
                inits,
                (k - 1) as nat,
                was,
            )
    }
}

proof fn one_more_used<F: Fn(InferCtx, &Expr) -> (InferCtx, Type)>(
    infer: F,
    c: InferCtx,
    m: InferCtx,
    d: InferCtx,
    base: Ty,
    tycons: Seq<TyConDecl>,
    inits: Seq<FieldInit>,
    k: nat,
    was: bool,
    ok: bool,
)
    requires
        k < inits.len(),
        all_used(infer, c, m, base, tycons, inits, k, was),
        used(infer, m, d, base, tycons, inits[k as int], was, ok),
    ensures
        all_used(infer, c, d, base, tycons, inits, (k + 1) as nat, ok),
{
    assert(all_used(infer, c, m, base, tycons, inits, (k + 1 - 1) as nat, was));
}

/// How many variables the fields of an update from `k` on may need.
pub open spec fn update_cost(
    env: Seq<Seq<(Seq<char>, Poly)>>,
    inits: Seq<FieldInit>,
    cost: spec_fn(Expr) -> nat,
    k: nat,
) -> nat
    decreases inits.len() - k,
{
    if k >= inits.len() {
        0
    } else {
        update_cost(env, inits, cost, k + 1) + init_cost(env, inits[k as int], cost)
    }
}

/// What looking at values does to a context at most.
pub open spec fn grown(c: InferCtx, d: InferCtx) -> bool {
    d.wf() && d.env@ == c.env@ && diags(c.errors@).is_prefix_of(diags(d.errors@))
}

fn use_field<F: Fn(InferCtx, &Expr) -> (InferCtx, Type)>(
    ctx: InferCtx,
    fi: &FieldInit,
    want: &Type,
    infer: &F,
    Ghost(env): Ghost<Seq<Seq<(Seq<char>, Poly)>>>,
    Ghost(cost): Ghost<spec_fn(Expr) -> nat>,
    Ghost(n): Ghost<nat>,
) -> (r: (InferCtx, bool))
    requires
        ctx.wf(),
        ctx.env@ == env,
        fits(ctx.table(), n),
        init_cost(env, *fi, cost) <= n,
        steady(*infer, env, cost),
    ensures
        exists|m: InferCtx, t: Ty| #[trigger]
            valued(*infer, ctx, m, *fi, "' not in scope in with-update"@, t) && fitted(
                m,
                r.0,
                t,
                want@,
                fi.span,
            ) && r.1 == (has_value(ctx.env@, *fi) && unified(m.table(), t, want@).1 is None),
        grown(ctx, r.0),
        fits(r.0.table(), (n - init_cost(env, *fi, cost)) as nat),
{
    let given = is_given(&ctx, fi);
    let (c, value_ty) = field_value(
        ctx,
        fi,
        "' not in scope in with-update",
        infer,
        Ghost(env),
        Ghost(cost),
        Ghost(n),
    );
    let mut ctx = c;
    proof {
        unified_agree(ctx.table(), value_ty@, want@);
    }
    let fit = fit_value(&mut ctx, &value_ty, want, fi.span);
    (ctx, given && fit)
}

/// Looks at the fields of an update of a record type without a name.
fn infer_structural_with<F: Fn(InferCtx, &Expr) -> (InferCtx, Type)>(
    ctx: InferCtx,
    base: &Type,
    row_fields: &Vec<(String, Type)>,
    tycons: &Vec<TyConDecl>,
    fields: &Vec<FieldInit>,
    infer: &F,
    Ghost(cost): Ghost<spec_fn(Expr) -> nat>,
) -> (r: (InferCtx, bool))
    requires
        ctx.wf(),
        base@ is Record,
        base@->Record_fields == field_views(row_fields@),
        fits(ctx.table(), update_cost(ctx.env@, fields@, cost, 0)),
        steady(*infer, ctx.env@, cost),
    ensures
        all_used(*infer, ctx, r.0, base@, tycons@, fields@, fields@.len(), r.1),
        grown(ctx, r.0),
{
    let ghost c0 = ctx;
    let ghost env = ctx.env@;
    let mut ctx = ctx;
    let mut ok = true;
    let mut i: usize = 0;
    while i < fields.len()
        invariant
            i <= fields@.len(),
            base@ is Record,
            base@->Record_fields == field_views(row_fields@),
            steady(*infer, env, cost),
            env == c0.env@,
            grown(c0, ctx),
            fits(ctx.table(), update_cost(env, fields@, cost, i as nat)),
            all_used(*infer, c0, ctx, base@, tycons@, fields@, i as nat, ok),
        decreases fields@.len() - i,
    {
        let fi = &fields[i];
        let ghost m = ctx;
        let ghost n = update_cost(env, fields@, cost, i as nat);
        let this = match field_named(row_fields, fi.name.text.as_str()) {
            Some(want) => {
                let (c, fine) = use_field(ctx, fi, want, infer, Ghost(env), Ghost(cost), Ghost(n));
                ctx = c;
                fine
            },
            None => {
                let record = render_type_with(base, tycons);
                ctx.errors.push(
                    TypeError::UnknownField {
                        record,
                        field: fi.name.text.clone(),
                        suggestions: label_names(row_fields),
                        span: fi.span,
                    },
                );
                false
            },
        };
        let ghost was = ok;
        ok = ok && this;
        assert(used(*infer, m, ctx, base@, tycons@, *fi, was, ok));
        proof {
            one_more_used(*infer, c0, m, ctx, base@, tycons@, fields@, i as nat, was, ok);
        }
        i = i + 1;
    }
    (ctx, ok)
}

/// Every field that an update names has a type in the base.
pub open spec fn update_covered(base: Ty, inits: Seq<FieldInit>, tycons: Seq<TyConDecl>) -> bool {
    forall|i: int|
        0 <= i < inits.len() ==> field_covered(base, (#[trigger] inits[i]).name.text@, tycons)
}

/// Looks at the fields of an update of a declared record type.
fn infer_nominal_with<F: Fn(InferCtx, &Expr) -> (InferCtx, Type)>(
    ctx: InferCtx,
    id: TyConId,
    args: &Vec<Type>,
    schema: &RecordSchema,
    tycons: &Vec<TyConDecl>,
    fields: &Vec<FieldInit>,
    infer: &F,
    Ghost(cost): Ghost<spec_fn(Expr) -> nat>,
) -> (r: (InferCtx, bool))
    requires
        ctx.wf(),
        record_of(tycons@, id) == Some(*schema),
        update_covered(Ty::Con(id, views(args@)), fields@, tycons@),
        fits(ctx.table(), update_cost(ctx.env@, fields@, cost, 0)),
        steady(*infer, ctx.env@, cost),
    ensures
        all_used(
            *infer,
            ctx,
            r.0,
            Ty::Con(id, views(args@)),
            tycons@,
            fields@,
            fields@.len(),
            r.1,
        ),
        grown(ctx, r.0),
{
    let ghost c0 = ctx;
    let ghost env = ctx.env@;
    let ghost base = Ty::Con(id, views(args@));
    let mut ctx = ctx;
    let mut ok = true;
    let mut i: usize = 0;
    while i < fields.len()
        invariant
            i <= fields@.len(),
            base == Ty::Con(id, views(args@)),
            record_of(tycons@, id) == Some(*schema),
            update_covered(base, fields@, tycons@),
            steady(*infer, env, cost),
            env == c0.env@,
            grown(c0, ctx),
            fits(ctx.table(), update_cost(env, fields@, cost, i as nat)),
            all_used(*infer, c0, ctx, base, tycons@, fields@, i as nat, ok),
        decreases fields@.len() - i,
    {
        let fi = &fields[i];
        let ghost m = ctx;
        let ghost n = update_cost(env, fields@, cost, i as nat);
        proof {
            assert(field_covered(base, fields@[i as int].name.text@, tycons@));
        }
        let this = match schema_field(schema, fi.name.text.as_str()) {
            Some(f) => {
                let want = subst_type(&f.ty, &schema.params, args);
                let (c, fine) = use_field(ctx, fi, &want, infer, Ghost(env), Ghost(cost), Ghost(n));
                ctx = c;
                fine
            },
            None => false,
        };
        let ghost was = ok;
        ok = ok && this;
        assert(used(*infer, m, ctx, base, tycons@, *fi, was, ok));
        proof {
            one_more_used(*infer, c0, m, ctx, base, tycons@, fields@, i as nat, was, ok);
        }
        i = i + 1;
    }
    (ctx, ok)
}

/// The name of the first field of an update.
pub open spec fn first_field(inits: Seq<FieldInit>) -> Seq<char> {
    if inits.len() > 0 {
        inits[0].name.text@
    } else {
        Seq::empty()
    }
}

/// `d` is `c`, and `t` the type, after a record of type `base`, with everything
/// known filled in, was updated. The type stays that of the base, and is an
/// error where a field is not one of the base's or has a value of another type.
pub open spec fn updated<F: Fn(InferCtx, &Expr) -> (InferCtx, Type)>(
    infer: F,
    c: InferCtx,
    d: InferCtx,
    base: Ty,
    inits: Seq<FieldInit>,
    span: Span,
    tycons: Seq<TyConDecl>,
    t: Ty,
) -> bool {
    match base {
        Ty::Var(_) => d == c && t == Ty::Error,
        Ty::Error => d == c && t == Ty::Error,
        Ty::Record { fields, tail } => exists|ok: bool| #[trigger]
            all_used(infer, c, d, base, tycons, inits, inits.len(), ok) && t == if ok {
                base
            } else {
                Ty::Error
            },
        Ty::Con(id, args) => match record_of(tycons, id) {
            Some(schema) => {
                let decl = tycons[id.0 as int];
                let known = declared_fields(schema.fields@);
                if hidden(decl, c.current_module_raw) {
                    &&& t == Ty::Error
                    &&& diags(d.errors@) == diags(c.errors@).push(
                        Diag::Opaque { record: decl.name@, field: first_field(inits), span },
                    )
                    &&& d == (InferCtx { errors: d.errors, ..c })
                } else {
                    exists|m: InferCtx, ok: bool|
                        #![trigger all_used(infer, m, d, base, tycons, inits, inits.len(), ok)]
                        {
                            &&& t == if ok {
                                base
                            } else {
                                Ty::Error
                            }
                            &&& diags(m.errors@) == diags(c.errors@) + unknown_reports(
                                decl.name@,
                                known,
                                inits,
                            )
                            &&& m == (InferCtx { errors: m.errors, ..c })
                            &&& all_used(infer, m, d, base, tycons, inits, inits.len(), ok)
                        }
                }
            },
            None => not_record(c, d, base, span, t),
        },
        _ => not_record(c, d, base, span, t),
    }
}

/// An update of what is no record.
pub open spec fn not_record(c: InferCtx, d: InferCtx, base: Ty, span: Span, t: Ty) -> bool {
    &&& t == Ty::Error
    &&& diags(d.errors@) == diags(c.errors@).push(Diag::NonRecord { ty: Desc::Ty(base), span })
    &&& d == (InferCtx { errors: d.errors, ..c })
}

/// The type of `base with { .. }`: every field must be one of the base's, with
/// a value of its type. Where that is not so, it is reported and the type is an
/// error.
#[must_use]
pub fn infer_record_with<F: Fn(InferCtx, &Expr) -> (InferCtx, Type)>(
    ctx: InferCtx,
    base_ty: &Type,
    fields: &Vec<FieldInit>,
    span: Span,
    tycons: &Vec<TyConDecl>,
    infer: F,
) -> (r: (InferCtx, Type))
    requires
        ctx.wf(),
        update_covered(resolve(ctx.table(), base_ty@), fields@, tycons@),
        exists|cost: spec_fn(Expr) -> nat| #[trigger]
            steady(infer, ctx.env@, cost) && fits(
                ctx.table(),
                update_cost(ctx.env@, fields@, cost, 0),
            ),
    ensures
        updated(
            infer,
            ctx,
            r.0,
            resolve(ctx.table(), base_ty@),
            fields@,
            span,
            tycons@,
            r.1@,
        ),
        grown(ctx, r.0),
{
    let ghost cost = choose|cost: spec_fn(Expr) -> nat| #[trigger]
        steady(infer, ctx.env@, cost) && fits(
            ctx.table(),
            update_cost(ctx.env@, fields@, cost, 0),
        );
    let base = ctx.deep_resolve(base_ty);
    let mut ctx = ctx;
    match &base {
        Type::Var(_) => (ctx, Type::Error),
        Type::Error => (ctx, Type::Error),
        Type::Record { fields: row, tail } => {
            assert(base@ == Ty::Record { fields: field_views(row@), tail: *tail });
            let (c, ok) = infer_structural_with(
                ctx,
                &base,
                row,
                tycons,
                fields,
                &infer,
                Ghost(cost),
            );
            if ok {
                (c, base)
            } else {
                (c, Type::Error)
            }
        },
        Type::Con(id, args) => {
            assert(base@ == Ty::Con(*id, views(args@)));
            match find_record(tycons, *id) {
                Some((decl, schema)) => {
                    if opaque_field_violation(&ctx, decl) {
                        let field = if fields.len() > 0 {
                            fields[0].name.text.clone()
                        } else {
                            String::new()
                        };
                        assert(field@ =~= first_field(fields@));
                        ctx.errors.push(
                            TypeError::OpaqueFieldAccess {
                                record: decl.name.clone(),
                                field,
                                span,
                            },
                        );
                        (ctx, Type::Error)
                    } else {
                        report_unknown(&mut ctx, decl.name.as_str(), schema, fields);
                        let (c, ok) = infer_nominal_with(
                            ctx,
                            *id,
                            args,
                            schema,
                            tycons,
                            fields,
                            &infer,
                            Ghost(cost),
                        );
                        if ok {
                            (c, base)
                        } else {
                            (c, Type::Error)
                        }
                    }
                },
                None => {
                    let t = non_record(&mut ctx, base.clone(), span);
                    (ctx, t)
                },
            }
        },
        _ => {
            let t = non_record(&mut ctx, base.clone(), span);
            (ctx, t)
        },
    }
}

/// Inference of patterns that can be relied on: it takes any context in order
/// with a scope and room for what the pattern costs, opens and closes no scope,
/// takes no diagnostic back and adds no more variables than the pattern costs.
pub open spec fn binds<P: Fn(InferCtx, &Pattern, &Type) -> InferCtx>(
    bind: P,
    cost: spec_fn(Pattern) -> nat,
) -> bool {
    &&& forall|c: InferCtx, p: &Pattern, t: &Type|
        affordable(c, cost(*p)) ==> #[trigger] call_requires(bind, (c, p, t))
    &&& forall|c: InferCtx, p: &Pattern, t: &Type, d: InferCtx| #[trigger]
        call_ensures(bind, (c, p, t), d) && affordable(c, cost(*p)) ==> opened(c, d) && grew(
            c,
            d,
            cost(*p),
        )
}

/// How many variables a field of a record pattern may need.
pub open spec fn pattern_cost(fp: FieldPattern, cost: spec_fn(Pattern) -> nat) -> nat {
    match fp.pattern {
        Some(p) => cost(p),
        None => 0,
    }
}

/// How many variables the fields of a record pattern from `k` on may need.
pub open spec fn patterns_cost(
    fps: Seq<FieldPattern>,
    cost: spec_fn(Pattern) -> nat,
    k: nat,
) -> nat
    decreases fps.len() - k,
{
    if k >= fps.len() {
        0
    } else {
        patterns_cost(fps, cost, k + 1) + pattern_cost(fps[k as int], cost)
    }
}

/// What matching a pattern does to a context at most.
pub open spec fn opened(c: InferCtx, d: InferCtx) -> bool {
    d.wf() && d.env@.len() == c.env@.len() && diags(c.errors@).is_prefix_of(diags(d.errors@))
}

/// `d` is `c` after a field of type `t` was matched.
pub open spec fn field_matched<P: Fn(InferCtx, &Pattern, &Type) -> InferCtx>(
    bind: P,
    c: InferCtx,
    d: InferCtx,
    fp: FieldPattern,
    t: Ty,
) -> bool {
    match fp.pattern {
        Some(sub) => exists|ty: Type| #[trigger] call_ensures(bind, (c, &sub, &ty), d) && ty@ == t,
        None => {
            &&& d.env@ == with_binding(c.env@, fp.name.text@, mono(t))
            &&& d == (InferCtx { env: d.env, ..c })
        },
    }
}

/// `d` is `c` after one field of a record pattern was looked at.
pub open spec fn pattern_used<P: Fn(InferCtx, &Pattern, &Type) -> InferCtx>(
    bind: P,
    c: InferCtx,
    d: InferCtx,
    record: Seq<char>,
    schema: RecordSchema,
    args: Seq<Ty>,
    fp: FieldPattern,
) -> bool {
    match want_in(schema, args, fp.name.text@) {
        Some(t) => field_matched(bind, c, d, fp, t),
        None => exists|m: InferCtx| #[trigger]
            field_matched(bind, m, d, fp, Ty::Error) && m == (InferCtx { errors: m.errors, ..c })
                && diags(m.errors@) == diags(c.errors@).push(
                unknown_field(record, fp.name.text@, declared_fields(schema.fields@), fp.span),
            ),
    }
}

/// `d` is `c` after the first `k` fields of a record pattern were looked at, in
/// order.
pub open spec fn patterns_used<P: Fn(InferCtx, &Pattern, &Type) -> InferCtx>(
    bind: P,
    c: InferCtx,
    d: InferCtx,
    record: Seq<char>,
    schema: RecordSchema,
    args: Seq<Ty>,
    fps: Seq<FieldPattern>,
    k: nat,
) -> bool
    decreases k,
{
    if k == 0 || k > fps.len() {
        d == c
    } else {
        let fp = fps[k - 1];
        exists|m: InferCtx| #[trigger]
            pattern_used(bind, m, d, record, schema, args, fp) && patterns_used(
                bind,
                c,
                m,
                record,
                schema,
                args,
                fps,
                (k - 1) as nat,
            )
    }
}

proof fn one_more_pattern<P: Fn(InferCtx, &Pattern, &Type) -> InferCtx>(
    bind: P,
    c: InferCtx,
    m: InferCtx,
    d: InferCtx,
    record: Seq<char>,
    schema: RecordSchema,
    args: Seq<Ty>,
    fps: Seq<FieldPattern>,
    k: nat,
)
    requires
        k < fps.len(),
        patterns_used(bind, c, m, record, schema, args, fps, k),
        pattern_used(bind, m, d, record, schema, args, fps[k as int]),
    ensures
        patterns_used(bind, c, d, record, schema, args, fps, (k + 1) as nat),
{
    assert(patterns_used(bind, c, m, record, schema, args, fps, (k + 1 - 1) as nat));
}

/// A record pattern names a field.
pub open spec fn names_field(fps: Seq<FieldPattern>, name: Seq<char>) -> bool {
    exists|i: int| 0 <= i < fps.len() && (#[trigger] fps[i]).name.text@ == name
}

/// What is said of the declared fields that a pattern leaves out, in order.
pub open spec fn missing_reports(
    record: Seq<char>,
    fields: Seq<RecordField>,
    fps: Seq<FieldPattern>,
    span: Span,
) -> Seq<Diag>
    decreases fields.len(),
{
    if fields.len() == 0 {
        Seq::empty()
    } else {
        let name = fields.last().name@;
        let before = missing_reports(record, fields.drop_last(), fps, span);
        if names_field(fps, name) {
            before
        } else {
            before.push(Diag::MissingField { record, field: name, span })
        }
    }
}

fn is_named(fps: &Vec<FieldPattern>, name: &str) -> (r: bool)
    ensures
        r == names_field(fps@, name@),
{
    let mut i: usize = 0;
    while i < fps.len()
        invariant
            i <= fps@.len(),
            forall|k: int| 0 <= k < i ==> (#[trigger] fps@[k]).name.text@ != name@,
        decreases fps@.len() - i,
    {
        if same_text(fps[i].name.text.as_str(), name) {
            assert(fps@[i as int].name.text@ == name@);
            return true;
        }
        i = i + 1;
    }
    false
}

fn report_missing(
    ctx: &mut InferCtx,
    record: &str,
    schema: &RecordSchema,
    fps: &Vec<FieldPattern>,
    span: Span,
)
    ensures
        diags(final(ctx).errors@) == diags(old(ctx).errors@) + missing_reports(
            record@,
            schema.fields@,
            fps@,
            span,
        ),
        *final(ctx) == (InferCtx { errors: final(ctx).errors, ..*old(ctx) }),
{
    let ghost ds = diags(ctx.errors@);
    let ghost all = schema.fields@;
    let mut i: usize = 0;
    assert(ds + missing_reports(record@, all.take(0), fps@, span) =~= ds);
    while i < schema.fields.len()
        invariant
            i <= all.len(),
            all == schema.fields@,
            ds == diags(old(ctx).errors@),
            diags(ctx.errors@) == ds + missing_reports(record@, all.take(i as int), fps@, span),
            *ctx == (InferCtx { errors: ctx.errors, ..*old(ctx) }),
        decreases all.len() - i,
    {
        let f = &schema.fields[i];
        let ghost before = missing_reports(record@, all.take(i as int), fps@, span);
        assert(all.take(i + 1).drop_last() =~= all.take(i as int));
        if !is_named(fps, f.name.as_str()) {
            ctx.errors.push(
                TypeError::MissingField { record: record.to_owned(), field: f.name.clone(), span },
            );
            let ghost d = Diag::MissingField { record: record@, field: f.name@, span };
            assert((ds + before).push(d) =~= ds + before.push(d));
        }
        i = i + 1;
    }
    assert(all.take(all.len() as int) =~= all);
}

/// `d` is `c` after a record pattern was matched against a value of type
/// `expected`: its parameters are new variables, the value must be of the
/// record type, the fields are looked at one after the other, and unless the
/// pattern leaves the rest open, the fields that it leaves out are reported.
pub open spec fn pattern_matched<P: Fn(InferCtx, &Pattern, &Type) -> InferCtx>(
    bind: P,
    c: InferCtx,
    d: InferCtx,
    schema: RecordSchema,
    owner: TyConId,
    record: Seq<char>,
    fps: Seq<FieldPattern>,
    has_rest: bool,
    expected: Ty,
    span: Span,
) -> bool {
    let n = schema.params@.len();
    let args = as_types(fresh_vars(c.table().types.len(), n));
    exists|a: InferCtx, m: InferCtx, z: InferCtx|
        #![trigger fitted(a, m, expected, Ty::Con(owner, args), span), patterns_used(bind, m, z, record, schema, args, fps, fps.len())]
        {
            &&& a.table() == (Table { types: with_slots(c.table().types, n), ..c.table() })
            &&& a == (InferCtx { vars: a.vars, ..c })
            &&& fitted(a, m, expected, Ty::Con(owner, args), span)
            &&& patterns_used(bind, m, z, record, schema, args, fps, fps.len())
            &&& if has_rest {
                d == z
            } else {
                &&& diags(d.errors@) == diags(z.errors@) + missing_reports(
                    record,
                    schema.fields@,
                    fps,
                    span,
                )
                &&& d == (InferCtx { errors: d.errors, ..z })
            }
        }
}

fn match_field<P: Fn(InferCtx, &Pattern, &Type) -> InferCtx>(
    ctx: InferCtx,
    fp: &FieldPattern,
    ty: Type,
    bind: &P,
    Ghost(cost): Ghost<spec_fn(Pattern) -> nat>,
) -> (r: InferCtx)
    requires
        affordable(ctx, pattern_cost(*fp, cost)),
        binds(*bind, cost),
    ensures
        field_matched(*bind, ctx, r, *fp, ty@),
        opened(ctx, r),
        grew(ctx, r, pattern_cost(*fp, cost)),
{
    let mut ctx = ctx;
    match &fp.pattern {
        Some(sub) => bind(ctx, sub, &ty),
        None => {
            ctx.env.bind(fp.name.text.clone(), monoscheme(ty));
            ctx
        },
    }
}

fn match_fields<P: Fn(InferCtx, &Pattern, &Type) -> InferCtx>(
    ctx: InferCtx,
    schema: &RecordSchema,
    args: &Vec<Type>,
    record_name: &str,
    fields: &Vec<FieldPattern>,
    bind: &P,
    Ghost(cost): Ghost<spec_fn(Pattern) -> nat>,
) -> (r: InferCtx)
    requires
        affordable(ctx, patterns_cost(fields@, cost, 0)),
        args@.len() == schema.params@.len(),
        binds(*bind, cost),
    ensures
        patterns_used(
            *bind,
            ctx,
            r,
            record_name@,
            *schema,
            views(args@),
            fields@,
            fields@.len(),
        ),
        opened(ctx, r),
{
    let ghost c0 = ctx;
    let mut ctx = ctx;
    let mut i: usize = 0;
    while i < fields.len()
        invariant
            i <= fields@.len(),
            c0.env@.len() > 0,
            args@.len() == schema.params@.len(),
            binds(*bind, cost),
            affordable(ctx, patterns_cost(fields@, cost, i as nat)),
            opened(c0, ctx),
            patterns_used(
                *bind,
                c0,
                ctx,
                record_name@,
                *schema,
                views(args@),
                fields@,
                i as nat,
            ),
        decreases fields@.len() - i,
    {
        let fp = &fields[i];
        let ghost m = ctx;
        match schema_field(schema, fp.name.text.as_str()) {
            Some(f) => {
                proof {
                    enough_covered(f.ty@, schema.params@, args@.len());
                }
                let ty = subst_type(&f.ty, &schema.params, args);
                ctx = match_field(ctx, fp, ty, bind, Ghost(cost));
            },
            None => {
                ctx.errors.push(
                    TypeError::UnknownField {
                        record: record_name.to_owned(),
                        field: fp.name.text.clone(),
                        suggestions: field_suggestions(schema),
                        span: fp.span,
                    },
                );
                ctx = match_field(ctx, fp, Type::Error, bind, Ghost(cost));
            },
        }
        assert(pattern_used(*bind, m, ctx, record_name@, *schema, views(args@), *fp));
        proof {
            one_more_pattern(
                *bind,
                c0,
                m,
                ctx,
                record_name@,
                *schema,
                views(args@),
                fields@,
                i as nat,
            );
        }
        i = i + 1;
    }
    ctx
}

/// Matches a record pattern against a value.
#[must_use]
pub fn infer_record_pattern<P: Fn(InferCtx, &Pattern, &Type) -> InferCtx>(
    ctx: InferCtx,
    schema: &RecordSchema,
    owner_tycon: TyConId,
    record_name: &str,
    fields: &Vec<FieldPattern>,
    has_rest: bool,
    expected: &Type,
    span: Span,
    bind: P,
) -> (r: InferCtx)
    requires
        exists|cost: spec_fn(Pattern) -> nat| #[trigger]
            binds(bind, cost) && affordable(
                ctx,
                schema.params@.len() + patterns_cost(fields@, cost, 0),
            ),
    ensures
        pattern_matched(
            bind,
            ctx,
            r,
            *schema,
            owner_tycon,
            record_name@,
            fields@,
            has_rest,
            expected@,
            span,
        ),
        opened(ctx, r),
{
    let ghost c0 = ctx;
    let ghost cost = choose|cost: spec_fn(Pattern) -> nat| #[trigger]
        binds(bind, cost) && affordable(
            ctx,
            schema.params@.len() + patterns_cost(fields@, cost, 0),
        );
    let mut ctx = ctx;
    let fresh = fresh_n(&mut ctx, schema.params.len());
    let args = vars_as_types(&fresh);
    assert(views(args@).len() == schema.params@.len());
    let record_ty = Type::Con(owner_tycon, clone_types(&args));
    assert(record_ty@ == Ty::Con(owner_tycon, views(args@)));
    proof {
        unified_agree(ctx.table(), expected@, record_ty@);
    }
    let _ = fit_value(&mut ctx, expected, &record_ty, span);
    let ghost c1 = ctx;
    ctx = match_fields(ctx, schema, &args, record_name, fields, &bind, Ghost(cost));
    let ghost c2 = ctx;
    if !has_rest {
        report_missing(&mut ctx, record_name, schema, fields, span);
    }
    proof {
        assert(diags(c0.errors@).is_prefix_of(diags(c1.errors@)));
        assert(diags(c1.errors@).is_prefix_of(diags(c2.errors@)));
        assert(diags(c2.errors@).is_prefix_of(diags(ctx.errors@)));
        assert(diags(c0.errors@) =~= diags(ctx.errors@).take(c0.errors@.len() as int));
    }
    ctx
}

} // verus!

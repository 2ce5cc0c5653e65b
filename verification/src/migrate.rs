use rustc_hash::FxHashMap;
use vstd::prelude::*;
use vstd::string::*;

use crate::ast::{ActorMember, Expr, Item, MigrateDecl, Module};
use crate::ctx::{with_binding, InferCtx};
use crate::decls::{affordable, grew};
use crate::diag::{clash_diag, diag, diags, nowhere, tells_clash, Diag};
use crate::error::TypeError;
use crate::fx::{by_name, get_name};
use crate::instantiate::{monoscheme, with_slots};
use crate::pipe_propagate::more_vars;
use crate::records::{also, as_types, vars_as_types};
use crate::render::declared_fields;
use crate::rendered::{read_rendered, read_shape};
use crate::rows::row_type;
use crate::shapes::{shape_fields, shapes, Rendered, Shape};
use crate::text::{decimal, digits, same_text, text5, texts};
use crate::types::{
    field_views, mono, views, BuiltinTyCons, CapRow, CapabilitySet, RecordField, RowTail, Span, Ty,
    TyConDecl, TyConId, TyConKind, TyVid, Type,
};
use crate::unify::{unified, unified_agree, unify};

verus! {

broadcast use {
    crate::types::group_views,
    crate::shapes::group_shapes,
    crate::diag::diags_push,
};

/// One version of a type: the names of its fields, and their types as texts.
#[derive(Debug)]
pub struct VersionEntry {
    pub ordinal: u32,
    pub hash: u64,
    pub shape: Vec<(String, String)>,
}

/// The versions of the type with a name in a module.
#[derive(Debug)]
pub struct TypeHistory {
    pub module: String,
    pub name: String,
    pub entries: Vec<VersionEntry>,
}

/// The versions of the record types and of the actor states of a workspace.
#[derive(Debug)]
pub struct VersionHistory {
    pub records: Vec<TypeHistory>,
    pub actors: Vec<TypeHistory>,
}

/// What checking the hooks of one module needs to know of the other modules.
pub struct MigrateHistoryCtx<'a> {
    /// The versions of the previous build.
    pub history: &'a VersionHistory,
    /// The full names of the modules.
    pub module_fqns: &'a Vec<String>,
    /// The types of the modules that were checked so far, by name.
    pub checked_tycon_names: &'a Vec<FxHashMap<String, TyConId>>,
}

/// The types that a name in the history can refer to.
pub struct Known {
    pub b: BuiltinTyCons,
    pub names: Map<Seq<char>, TyConId>,
    pub fqns: Seq<Seq<char>>,
    pub tables: Seq<Map<Seq<char>, TyConId>>,
}

pub open spec fn known(ctx: InferCtx, b: BuiltinTyCons, hctx: MigrateHistoryCtx) -> Known {
    Known {
        b,
        names: by_name(ctx.user_tycon_names@),
        fqns: texts(hctx.module_fqns@),
        tables: Seq::new(
            hctx.checked_tycon_names@.len(),
            |i: int| by_name(hctx.checked_tycon_names@[i]@),
        ),
    }
}

/// The built-in type with a name.
pub open spec fn builtin_named(b: BuiltinTyCons, name: Seq<char>) -> Option<TyConId> {
    if name == "Int"@ {
        Some(b.int)
    } else if name == "Float"@ {
        Some(b.float)
    } else if name == "Bool"@ {
        Some(b.bool)
    } else if name == "Text"@ {
        Some(b.text)
    } else if name == "Unit"@ {
        Some(b.unit)
    } else if name == "Timestamp"@ {
        Some(b.timestamp)
    } else if name == "Decimal"@ {
        Some(b.decimal)
    } else if name == "Uuid"@ {
        Some(b.uuid)
    } else if name == "Bytes"@ {
        Some(b.bytes)
    } else if name == "Date"@ {
        Some(b.date)
    } else if name == "Time"@ {
        Some(b.time)
    } else if name == "List"@ {
        Some(b.list)
    } else if name == "Map"@ {
        Some(b.map)
    } else if name == "Set"@ {
        Some(b.set)
    } else if name == "Option"@ {
        Some(b.option)
    } else if name == "Result"@ {
        Some(b.result)
    } else if name == "Handle"@ {
        Some(b.handle)
    } else {
        None
    }
}

fn find_builtin(b: &BuiltinTyCons, name: &str) -> (r: Option<TyConId>)
    ensures
        r == builtin_named(*b, name@),
{
    if same_text(name, "Int") {
        Some(b.int)
    } else if same_text(name, "Float") {
        Some(b.float)
    } else if same_text(name, "Bool") {
        Some(b.bool)
    } else if same_text(name, "Text") {
        Some(b.text)
    } else if same_text(name, "Unit") {
        Some(b.unit)
    } else if same_text(name, "Timestamp") {
        Some(b.timestamp)
    } else if same_text(name, "Decimal") {
        Some(b.decimal)
    } else if same_text(name, "Uuid") {
        Some(b.uuid)
    } else if same_text(name, "Bytes") {
        Some(b.bytes)
    } else if same_text(name, "Date") {
        Some(b.date)
    } else if same_text(name, "Time") {
        Some(b.time)
    } else if same_text(name, "List") {
        Some(b.list)
    } else if same_text(name, "Map") {
        Some(b.map)
    } else if same_text(name, "Set") {
        Some(b.set)
    } else if same_text(name, "Option") {
        Some(b.option)
    } else if same_text(name, "Result") {
        Some(b.result)
    } else if same_text(name, "Handle") {
        Some(b.handle)
    } else {
        None
    }
}

/// Where the last dot of a name stands.
pub open spec fn last_dot(name: Seq<char>) -> Option<nat>
    decreases name.len(),
{
    if name.len() == 0 {
        None
    } else if name.last() == '.' {
        Some((name.len() - 1) as nat)
    } else {
        last_dot(name.drop_last())
    }
}

fn find_last_dot(name: &str) -> (r: Option<usize>)
    ensures
        r is Some <==> last_dot(name@) is Some,
        r matches Some(p) ==> last_dot(name@) == Some(p as nat) && p < name@.len(),
{
    let mut i: usize = name.unicode_len();
    assert(name@.take(i as int) =~= name@);
    while i > 0
        invariant
            i <= name@.len(),
            last_dot(name@) == last_dot(name@.take(i as int)),
        decreases i,
    {
        assert(name@.take(i as int).last() == name@[i - 1]);
        assert(name@.take(i as int).drop_last() =~= name@.take(i - 1));
        if name.get_char(i - 1) == '.' {
            return Some(i - 1);
        }
        i = i - 1;
    }
    None
}

/// Where a text stands in a list, first.
pub open spec fn text_position(items: Seq<Seq<char>>, x: Seq<char>) -> Option<nat>
    decreases items.len(),
{
    if items.len() == 0 {
        None
    } else if items[0] == x {
        Some(0)
    } else {
        match text_position(items.skip(1), x) {
            Some(i) => Some(i + 1),
            None => None,
        }
    }
}

fn find_text(items: &Vec<String>, x: &str) -> (r: Option<usize>)
    ensures
        r is Some <==> text_position(texts(items@), x@) is Some,
        r matches Some(i) ==> text_position(texts(items@), x@) == Some(i as nat),
{
    let ghost all = texts(items@);
    let mut i: usize = 0;
    assert(all.skip(0) =~= all);
    while i < items.len()
        invariant
            i <= items@.len(),
            all == texts(items@),
            text_position(all, x@) == match text_position(all.skip(i as int), x@) {
                Some(k) => Some(k + i as nat),
                None => None,
            },
        decreases items@.len() - i,
    {
        assert(all.skip(i as int)[0] == items@[i as int]@);
        assert(all.skip(i as int).skip(1) =~= all.skip(i + 1));
        if same_text(items[i].as_str(), x) {
            return Some(i);
        }
        i = i + 1;
    }
    None
}

/// The type that a name in the history refers to: a built-in one, behind the
/// full name of a module one of that module, and otherwise one that the module
/// at hand knows.
pub open spec fn named_type(k: Known, name: Seq<char>) -> Option<TyConId> {
    match builtin_named(k.b, name) {
        Some(id) => Some(id),
        None => match last_dot(name) {
            Some(p) => {
                let bare = name.skip(p as int + 1);
                match text_position(k.fqns, name.take(p as int)) {
                    Some(m) => if m < k.tables.len() && k.tables[m as int].dom().contains(bare) {
                        Some(k.tables[m as int][bare])
                    } else {
                        None
                    },
                    None => None,
                }
            },
            None => if k.names.dom().contains(name) {
                Some(k.names[name])
            } else {
                None
            },
        },
    }
}

fn find_named(ctx: &InferCtx, b: &BuiltinTyCons, hctx: &MigrateHistoryCtx, name: &str) -> (r: Option<
    TyConId,
>)
    ensures
        r == named_type(known(*ctx, *b, *hctx), name@),
{
    match find_builtin(b, name) {
        Some(id) => Some(id),
        None => match find_last_dot(name) {
            Some(p) => {
                let n: usize = name.unicode_len();
                let fqn = name.substring_char(0, p);
                let bare = name.substring_char(p + 1, n);
                assert(fqn@ =~= name@.take(p as int));
                assert(bare@ =~= name@.skip(p + 1));
                match find_text(hctx.module_fqns, fqn) {
                    Some(m) => if m < hctx.checked_tycon_names.len() {
                        match get_name(&hctx.checked_tycon_names[m], bare) {
                            Some(id) => Some(*id),
                            None => None,
                        }
                    } else {
                        None
                    },
                    None => None,
                }
            },
            None => ctx.tycon_named(name),
        },
    }
}

/// The type that a shape stands for where `vars` variables are allocated, and
/// how many are then. What does not resolve is a new variable.
pub open spec fn shape_type(k: Known, sh: Shape, vars: nat) -> (Ty, nat)
    decreases sh, 0nat,
{
    match sh {
        Shape::Hole => (Ty::Var(TyVid(vars as u32)), vars + 1),
        Shape::Named { name, args } => {
            let (ts, v) = shape_types(k, args, vars, args.len());
            match named_type(k, name) {
                Some(id) => (Ty::Con(id, ts), v),
                None => (Ty::Var(TyVid(v as u32)), v + 1),
            }
        },
        Shape::Fn { params, ret } => {
            let (ts, v) = shape_types(k, params, vars, params.len());
            let (t, w) = shape_type(k, *ret, v);
            (
                Ty::Fn {
                    params: ts,
                    ret: Box::new(t),
                    caps: CapRow::Concrete(CapabilitySet(0)),
                },
                w,
            )
        },
        Shape::Tuple(elems) => {
            let (ts, v) = shape_types(k, elems, vars, elems.len());
            (Ty::Tuple(ts), v)
        },
        Shape::Record(fields) => {
            let (fs, v) = field_types(k, fields, vars, fields.len());
            (row_type(fs, RowTail::Closed), v)
        },
    }
}

/// The types of the first `n` of a list of shapes.
pub open spec fn shape_types(k: Known, shs: Seq<Shape>, vars: nat, n: nat) -> (Seq<Ty>, nat)
    decreases shs, n,
{
    if n == 0 || n > shs.len() {
        (Seq::empty(), vars)
    } else {
        let (ts, v) = shape_types(k, shs, vars, (n - 1) as nat);
        let (t, w) = shape_type(k, shs[n - 1], v);
        (ts.push(t), w)
    }
}

/// The types of the first `n` of a list of labelled shapes.
pub open spec fn field_types(k: Known, fs: Seq<(Seq<char>, Shape)>, vars: nat, n: nat) -> (
    Seq<(Seq<char>, Ty)>,
    nat,
)
    decreases fs, n,
{
    if n == 0 || n > fs.len() {
        (Seq::empty(), vars)
    } else {
        let (ts, v) = field_types(k, fs, vars, (n - 1) as nat);
        let (t, w) = shape_type(k, fs[n - 1].1, v);
        (ts.push((fs[n - 1].0, t)), w)
    }
}

/// How many variables a shape may need.
pub open spec fn shape_cost(sh: Shape) -> nat
    decreases sh, 0nat,
{
    match sh {
        Shape::Hole => 1,
        Shape::Named { name, args } => 1 + shapes_cost(args, args.len()),
        Shape::Fn { params, ret } => shapes_cost(params, params.len()) + shape_cost(*ret),
        Shape::Tuple(elems) => shapes_cost(elems, elems.len()),
        Shape::Record(fields) => fields_cost(fields, fields.len()),
    }
}

pub open spec fn shapes_cost(shs: Seq<Shape>, n: nat) -> nat
    decreases shs, n,
{
    if n == 0 || n > shs.len() {
        0
    } else {
        shapes_cost(shs, (n - 1) as nat) + shape_cost(shs[n - 1])
    }
}

pub open spec fn fields_cost(fs: Seq<(Seq<char>, Shape)>, n: nat) -> nat
    decreases fs, n,
{
    if n == 0 || n > fs.len() {
        0
    } else {
        fields_cost(fs, (n - 1) as nat) + shape_cost(fs[n - 1].1)
    }
}

proof fn shapes_cost_grows(shs: Seq<Shape>, m: nat, n: nat)
    requires
        m <= n <= shs.len(),
    ensures
        shapes_cost(shs, m) <= shapes_cost(shs, n),
    decreases n,
{
    if m < n {
        shapes_cost_grows(shs, m, (n - 1) as nat);
    }
}

proof fn fields_cost_grows(fs: Seq<(Seq<char>, Shape)>, m: nat, n: nat)
    requires
        m <= n <= fs.len(),
    ensures
        fields_cost(fs, m) <= fields_cost(fs, n),
    decreases n,
{
    if m < n {
        fields_cost_grows(fs, m, (n - 1) as nat);
    }
}

/// `d` is `c` with the new variables that a shape needs.
pub open spec fn allocated(c: InferCtx, d: InferCtx, vars: nat) -> bool {
    &&& d.wf()
    &&& vars >= c.table().types.len()
    &&& d.table() == more_vars(c.table(), (vars - c.table().types.len()) as nat)
    &&& d == (InferCtx { vars: d.vars, ..c })
}

proof fn allocated_twice(c: InferCtx, m: InferCtx, d: InferCtx, v: nat, w: nat)
    requires
        allocated(c, m, v),
        allocated(m, d, w),
    ensures
        allocated(c, d, w),
{
    assert(d.table().types =~= with_slots(
        c.table().types,
        (w - c.table().types.len()) as nat,
    ));
}

fn fresh_var(ctx: &mut InferCtx) -> (r: Type)
    requires
        old(ctx).wf(),
        old(ctx).has_room(1),
    ensures
        r@ == Ty::Var(TyVid(old(ctx).table().types.len() as u32)),
        allocated(*old(ctx), *final(ctx), old(ctx).table().types.len() + 1),
{
    let v = ctx.fresh_tyvid();
    assert(old(ctx).table().types.push(None) =~= with_slots(old(ctx).table().types, 1));
    Type::Var(v)
}

/// Resolves a shape.
fn type_of_shape(
    ctx: &mut InferCtx,
    b: &BuiltinTyCons,
    hctx: &MigrateHistoryCtx,
    t: &Rendered,
) -> (r: Type)
    requires
        old(ctx).wf(),
        old(ctx).has_room(shape_cost(t@) as int),
    ensures
        r@ == shape_type(known(*old(ctx), *b, *hctx), t@, old(ctx).table().types.len()).0,
        allocated(
            *old(ctx),
            *final(ctx),
            shape_type(known(*old(ctx), *b, *hctx), t@, old(ctx).table().types.len()).1,
        ),
        final(ctx).table().types.len() <= old(ctx).table().types.len() + shape_cost(t@),
    decreases t, 0nat,
{
    let ghost k = known(*ctx, *b, *hctx);
    let ghost c0 = *ctx;
    match t {
        Rendered::Hole => fresh_var(ctx),
        Rendered::Named { name, args } => {
            assert(t@ == Shape::Named { name: name@, args: shapes(args@) });
            let ts = types_of_shapes(ctx, b, hctx, args);
            let ghost c1 = *ctx;
            match find_named(ctx, b, hctx, name.as_str()) {
                Some(id) => {
                    let r = Type::Con(id, ts);
                    assert(r@ == Ty::Con(id, views(ts@)));
                    r
                },
                None => {
                    let r = fresh_var(ctx);
                    proof {
                        allocated_twice(
                            c0,
                            c1,
                            *ctx,
                            c1.table().types.len(),
                            ctx.table().types.len(),
                        );
                    }
                    r
                },
            }
        },
        Rendered::Fn { params, ret } => {
            assert(t@ == Shape::Fn { params: shapes(params@), ret: Box::new(ret@) });
            let ts = types_of_shapes(ctx, b, hctx, params);
            let ghost c1 = *ctx;
            let u = type_of_shape(ctx, b, hctx, ret);
            proof {
                allocated_twice(c0, c1, *ctx, c1.table().types.len(), ctx.table().types.len());
            }
            let r = Type::Fn {
                params: ts,
                ret: Box::new(u),
                caps: CapRow::Concrete(CapabilitySet::pure()),
            };
            assert(r@ == Ty::Fn {
                params: views(ts@),
                ret: Box::new(u@),
                caps: CapRow::Concrete(CapabilitySet(0)),
            });
            r
        },
        Rendered::Tuple(elems) => {
            assert(t@ == Shape::Tuple(shapes(elems@)));
            let ts = types_of_shapes(ctx, b, hctx, elems);
            let r = Type::Tuple(ts);
            assert(r@ == Ty::Tuple(views(ts@)));
            r
        },
        Rendered::Record(fields) => {
            assert(t@ == Shape::Record(shape_fields(fields@)));
            let fs = types_of_fields(ctx, b, hctx, fields);
            Type::record(fs, RowTail::Closed)
        },
    }
}

fn types_of_shapes(
    ctx: &mut InferCtx,
    b: &BuiltinTyCons,
    hctx: &MigrateHistoryCtx,
    ts: &Vec<Rendered>,
) -> (r: Vec<Type>)
    requires
        old(ctx).wf(),
        old(ctx).has_room(shapes_cost(shapes(ts@), ts@.len()) as int),
    ensures
        ({
            let (want, v) = shape_types(
                known(*old(ctx), *b, *hctx),
                shapes(ts@),
                old(ctx).table().types.len(),
                ts@.len(),
            );
            views(r@) == want && allocated(*old(ctx), *final(ctx), v)
        }),
        final(ctx).table().types.len() <= old(ctx).table().types.len() + shapes_cost(
            shapes(ts@),
            ts@.len(),
        ),
    decreases ts, 1nat,
{
    let ghost k = known(*ctx, *b, *hctx);
    let ghost shs = shapes(ts@);
    let ghost nt = ctx.table().types.len();
    let mut out: Vec<Type> = Vec::new();
    let mut i: usize = 0;
    assert(with_slots(ctx.table().types, 0) =~= ctx.table().types);
    assert(views(out@) =~= Seq::<Ty>::empty());
    while i < ts.len()
        invariant
            i <= ts@.len(),
            k == known(*old(ctx), *b, *hctx),
            shs == shapes(ts@),
            nt == old(ctx).table().types.len(),
            nt + shapes_cost(shs, ts@.len()) <= u32::MAX,
            views(out@) == shape_types(k, shs, nt, i as nat).0,
            allocated(*old(ctx), *ctx, shape_types(k, shs, nt, i as nat).1),
            ctx.table().types.len() <= nt + shapes_cost(shs, i as nat),
        decreases ts@.len() - i,
    {
        let ghost c1 = *ctx;
        proof {
            shapes_cost_grows(shs, (i + 1) as nat, ts@.len());
            assert(shs[i as int] == ts@[i as int]@);
            assert(shape_types(k, shs, nt, (i + 1) as nat).1 == shape_type(
                k,
                shs[i as int],
                shape_types(k, shs, nt, i as nat).1,
            ).1);
        }
        let t = type_of_shape(ctx, b, hctx, &ts[i]);
        let ghost before = views(out@);
        out.push(t);
        proof {
            assert(views(out@) =~= before.push(t@));
            allocated_twice(
                *old(ctx),
                c1,
                *ctx,
                c1.table().types.len(),
                ctx.table().types.len(),
            );
        }
        i = i + 1;
    }
    out
}

fn types_of_fields(
    ctx: &mut InferCtx,
    b: &BuiltinTyCons,
    hctx: &MigrateHistoryCtx,
    fs: &Vec<(String, Rendered)>,
) -> (r: Vec<(String, Type)>)
    requires
        old(ctx).wf(),
        old(ctx).has_room(fields_cost(shape_fields(fs@), fs@.len()) as int),
    ensures
        ({
            let (want, v) = field_types(
                known(*old(ctx), *b, *hctx),
                shape_fields(fs@),
                old(ctx).table().types.len(),
                fs@.len(),
            );
            field_views(r@) == want && allocated(*old(ctx), *final(ctx), v)
        }),
        final(ctx).table().types.len() <= old(ctx).table().types.len() + fields_cost(
            shape_fields(fs@),
            fs@.len(),
        ),
    decreases fs, 1nat,
{
    let ghost k = known(*ctx, *b, *hctx);
    let ghost shs = shape_fields(fs@);
    let ghost nt = ctx.table().types.len();
    let mut out: Vec<(String, Type)> = Vec::new();
    let mut i: usize = 0;
    assert(with_slots(ctx.table().types, 0) =~= ctx.table().types);
    assert(field_views(out@) =~= Seq::<(Seq<char>, Ty)>::empty());
    while i < fs.len()
        invariant
            i <= fs@.len(),
            k == known(*old(ctx), *b, *hctx),
            shs == shape_fields(fs@),
            nt == old(ctx).table().types.len(),
            nt + fields_cost(shs, fs@.len()) <= u32::MAX,
            field_views(out@) == field_types(k, shs, nt, i as nat).0,
            allocated(*old(ctx), *ctx, field_types(k, shs, nt, i as nat).1),
            ctx.table().types.len() <= nt + fields_cost(shs, i as nat),
        decreases fs@.len() - i,
    {
        let ghost c1 = *ctx;
        proof {
            fields_cost_grows(shs, (i + 1) as nat, fs@.len());
            assert(shs[i as int] == (fs@[i as int].0@, fs@[i as int].1@));
            assert(field_types(k, shs, nt, (i + 1) as nat).1 == shape_type(
                k,
                shs[i as int].1,
                field_types(k, shs, nt, i as nat).1,
            ).1);
        }
        let f = &fs[i];
        let t = type_of_shape(ctx, b, hctx, &f.1);
        let ghost before = field_views(out@);
        out.push((f.0.clone(), t));
        proof {
            assert(field_views(out@) =~= before.push((fs@[i as int].0@, t@)));
            allocated_twice(
                *old(ctx),
                c1,
                *ctx,
                c1.table().types.len(),
                ctx.table().types.len(),
            );
        }
        i = i + 1;
    }
    out
}

/// The versions of the type with a name in a module.
pub open spec fn history_of(hs: Seq<TypeHistory>, module: Seq<char>, name: Seq<char>) -> Option<
    TypeHistory,
>
    decreases hs.len(),
{
    if hs.len() == 0 {
        None
    } else if hs[0].module@ == module && hs[0].name@ == name {
        Some(hs[0])
    } else {
        history_of(hs.skip(1), module, name)
    }
}

/// The version with an ordinal.
pub open spec fn version_of(es: Seq<VersionEntry>, ordinal: u32) -> Option<VersionEntry>
    decreases es.len(),
{
    if es.len() == 0 {
        None
    } else if es[0].ordinal == ordinal {
        Some(es[0])
    } else {
        version_of(es.skip(1), ordinal)
    }
}

/// The version with an ordinal of the type with a name in a module.
pub open spec fn past(
    hs: Seq<TypeHistory>,
    module: Seq<char>,
    name: Seq<char>,
    ordinal: u32,
) -> Option<VersionEntry> {
    match history_of(hs, module, name) {
        Some(h) => version_of(h.entries@, ordinal),
        None => None,
    }
}

fn find_version<'a>(es: &'a Vec<VersionEntry>, ordinal: u32) -> (r: Option<&'a VersionEntry>)
    ensures
        r is Some <==> version_of(es@, ordinal) is Some,
        r matches Some(e) ==> version_of(es@, ordinal) == Some(*e),
{
    let mut i: usize = 0;
    assert(es@.skip(0) =~= es@);
    while i < es.len()
        invariant
            i <= es@.len(),
            version_of(es@, ordinal) == version_of(es@.skip(i as int), ordinal),
        decreases es@.len() - i,
    {
        assert(es@.skip(i as int)[0] == es@[i as int]);
        assert(es@.skip(i as int).skip(1) =~= es@.skip(i + 1));
        if es[i].ordinal == ordinal {
            return Some(&es[i]);
        }
        i = i + 1;
    }
    None
}

fn find_past<'a>(hs: &'a Vec<TypeHistory>, module: &str, name: &str, ordinal: u32) -> (r: Option<
    &'a VersionEntry,
>)
    ensures
        r is Some <==> past(hs@, module@, name@, ordinal) is Some,
        r matches Some(e) ==> past(hs@, module@, name@, ordinal) == Some(*e),
{
    let mut i: usize = 0;
    assert(hs@.skip(0) =~= hs@);
    while i < hs.len()
        invariant
            i <= hs@.len(),
            history_of(hs@, module@, name@) == history_of(hs@.skip(i as int), module@, name@),
        decreases hs@.len() - i,
    {
        assert(hs@.skip(i as int)[0] == hs@[i as int]);
        assert(hs@.skip(i as int).skip(1) =~= hs@.skip(i + 1));
        if same_text(hs[i].module.as_str(), module) && same_text(hs[i].name.as_str(), name) {
            return find_version(&hs[i].entries, ordinal);
        }
        i = i + 1;
    }
    None
}

/// Whether a hook belongs to a record type or to the state of an actor.
#[derive(Clone, Copy, Debug, PartialEq, Eq, Structural)]
pub enum OwnerKind {
    Record,
    Actor,
}

/// The versions that the hooks of an owner go back to.
pub open spec fn histories(h: VersionHistory, kind: OwnerKind) -> Seq<TypeHistory> {
    match kind {
        OwnerKind::Record => h.records@,
        OwnerKind::Actor => h.actors@,
    }
}

/// What the texts of a version say.
pub open spec fn entry_shapes(fields: Seq<(String, String)>) -> Seq<(Seq<char>, Shape)> {
    Seq::new(fields.len(), |i: int| (fields[i].0@, read_shape(fields[i].1@)))
}

/// The record type that a version had, where `vars` variables are allocated,
/// and how many are then.
pub open spec fn past_type(k: Known, e: VersionEntry, vars: nat) -> (Ty, nat) {
    let (fs, v) = field_types(k, entry_shapes(e.shape@), vars, e.shape@.len());
    (row_type(fs, RowTail::Closed), v)
}

/// How many variables a version may need.
pub open spec fn past_cost(e: VersionEntry) -> nat {
    fields_cost(entry_shapes(e.shape@), e.shape@.len())
}

/// Resolves a type as the history writes it down. What cannot be read, and what
/// is not known by its name, is a new variable.
pub fn resolve_rendered(
    ctx: &mut InferCtx,
    b: &BuiltinTyCons,
    hctx: &MigrateHistoryCtx,
    s: &str,
) -> (r: Type)
    requires
        old(ctx).wf(),
        old(ctx).has_room(shape_cost(read_shape(s@)) as int),
    ensures
        r@ == shape_type(
            known(*old(ctx), *b, *hctx),
            read_shape(s@),
            old(ctx).table().types.len(),
        ).0,
        allocated(
            *old(ctx),
            *final(ctx),
            shape_type(
                known(*old(ctx), *b, *hctx),
                read_shape(s@),
                old(ctx).table().types.len(),
            ).1,
        ),
{
    let t = read_rendered(s);
    type_of_shape(ctx, b, hctx, &t)
}

fn read_entry(e: &VersionEntry) -> (r: Vec<(String, Rendered)>)
    ensures
        shape_fields(r@) == entry_shapes(e.shape@),
{
    let mut out: Vec<(String, Rendered)> = Vec::new();
    let mut i: usize = 0;
    while i < e.shape.len()
        invariant
            i <= e.shape@.len(),
            out@.len() == i,
            forall|k: int|
                0 <= k < i ==> (#[trigger] out@[k]).0@ == e.shape@[k].0@ && out@[k].1@
                    == read_shape(e.shape@[k].1@),
        decreases e.shape@.len() - i,
    {
        let f = &e.shape[i];
        out.push((f.0.clone(), read_rendered(f.1.as_str())));
        i = i + 1;
    }
    assert(shape_fields(out@) =~= entry_shapes(e.shape@));
    out
}

/// Inference of bodies that can be relied on: it takes any context in order
/// with a scope and room for what the body costs, leaves the names in scope as
/// they were, takes no diagnostic back and adds no more variables than the body
/// costs.
pub open spec fn sure<F: Fn(InferCtx, &Expr) -> (InferCtx, Type)>(
    infer: F,
    cost: spec_fn(Expr) -> nat,
) -> bool {
    &&& forall|c: InferCtx, e: &Expr|
        affordable(c, cost(*e)) ==> #[trigger] call_requires(infer, (c, e))
    &&& forall|c: InferCtx, e: &Expr, out: (InferCtx, Type)| #[trigger]
        call_ensures(infer, (c, e), out) && affordable(c, cost(*e)) ==> ready(c, out.0) && grew(
            c,
            out.0,
            cost(*e),
        )
}

/// As [`sure`], for a check that the body of a hook is free of effects.
pub open spec fn sure_check<C: Fn(InferCtx, &String, &Expr, Span) -> InferCtx>(
    check_caps: C,
    cost: spec_fn(Expr) -> nat,
) -> bool {
    &&& forall|c: InferCtx, name: &String, e: &Expr, span: Span|
        c.wf() && c.has_room(cost(*e) as int) ==> #[trigger] call_requires(
            check_caps,
            (c, name, e, span),
        )
    &&& forall|c: InferCtx, name: &String, e: &Expr, span: Span, d: InferCtx| #[trigger]
        call_ensures(check_caps, (c, name, e, span), d) && c.wf() && c.has_room(cost(*e) as int)
            ==> ready(c, d) && grew(c, d, cost(*e))
}

/// What a body may change of a context.
pub open spec fn ready(c: InferCtx, d: InferCtx) -> bool {
    &&& d.wf()
    &&& d.env@ == c.env@
    &&& diags(c.errors@).is_prefix_of(diags(d.errors@))
}

/// The name under which a hook is reported.
pub open spec fn hook_name(owner: Seq<char>, version: u32) -> Seq<char> {
    "migrate "@ + owner + "@"@ + digits(version as nat)
}

/// `a` is `c` inside a hook on a value of type `old`.
pub open spec fn inside_hook(c: InferCtx, a: InferCtx, param: Seq<char>, old_ty: Ty, vars: nat) -> bool {
    &&& a.wf()
    &&& a.table() == more_vars(c.table(), (vars - c.table().types.len()) as nat)
    &&& a.env@ == with_binding(c.env@.push(Seq::empty()), param, mono(old_ty))
    &&& a == (InferCtx { vars: a.vars, env: a.env, ..c })
}

/// `d` is `z` outside a hook whose body has type `body`, where one of type
/// `new` is called for.
pub open spec fn outside_hook(z: InferCtx, d: InferCtx, body: Ty, new_ty: Ty) -> bool {
    let (tb, clash) = unified(z.table(), body, new_ty);
    &&& d.wf()
    &&& d.table() == tb
    &&& d.env@ == z.env@.drop_last()
    &&& diags(d.errors@) == also(
        diags(z.errors@),
        match clash {
            Some(x) => Some(clash_diag(x, nowhere())),
            None => None,
        },
    )
    &&& d == (InferCtx { vars: d.vars, env: d.env, errors: d.errors, ..z })
}

/// `d` is `c` after the body of a hook was checked against a version of its
/// owner.
pub open spec fn body_fits<
    F: Fn(InferCtx, &Expr) -> (InferCtx, Type),
    C: Fn(InferCtx, &String, &Expr, Span) -> InferCtx,
>(
    infer: F,
    check_caps: C,
    c: InferCtx,
    d: InferCtx,
    owner: Seq<char>,
    m: MigrateDecl,
    old_ty: (Ty, nat),
    new_ty: Ty,
) -> bool {
    exists|a: InferCtx, out: (InferCtx, Type), z: InferCtx, name: String|
        #![trigger call_ensures(infer, (a, &m.body), out), call_ensures(check_caps, (z, &name, &m.body, m.span), d)]
        {
            &&& inside_hook(c, a, m.param.text@, old_ty.0, old_ty.1)
            &&& call_ensures(infer, (a, &m.body), out)
            &&& outside_hook(out.0, z, out.1@, new_ty)
            &&& name@ == hook_name(owner, m.old_type.version)
            &&& call_ensures(check_caps, (z, &name, &m.body, m.span), d)
        }
}

/// `d` is `c` after one hook was checked. A second hook from a version is
/// reported, and so is a version that there never was.
pub open spec fn hook_checked<
    F: Fn(InferCtx, &Expr) -> (InferCtx, Type),
    C: Fn(InferCtx, &String, &Expr, Span) -> InferCtx,
>(
    infer: F,
    check_caps: C,
    b: BuiltinTyCons,
    hctx: MigrateHistoryCtx,
    c: InferCtx,
    d: InferCtx,
    module: Seq<char>,
    owner: Seq<char>,
    kind: OwnerKind,
    m: MigrateDecl,
    new_ty: Ty,
    again: bool,
) -> bool {
    if again {
        &&& diags(d.errors@) == diags(c.errors@).push(
            Diag::DuplicateMigration { name: owner, ordinal: m.old_type.version, span: m.span },
        )
        &&& d == (InferCtx { errors: d.errors, ..c })
    } else {
        match past(histories(*hctx.history, kind), module, owner, m.old_type.version) {
            None => {
                &&& diags(d.errors@) == diags(c.errors@).push(
                    Diag::UnknownVersion {
                        name: m.old_type.name.text@,
                        ordinal: m.old_type.version,
                        span: m.old_type.span,
                    },
                )
                &&& d == (InferCtx { errors: d.errors, ..c })
            },
            Some(e) => body_fits(
                infer,
                check_caps,
                c,
                d,
                owner,
                m,
                past_type(known(c, b, hctx), e, c.table().types.len()),
                new_ty,
            ),
        }
    }
}

/// How many variables a hook may need: those of the version that it goes back
/// to, those of its body, and those that the check for effects takes.
pub open spec fn hook_cost(
    h: VersionHistory,
    module: Seq<char>,
    owner: Seq<char>,
    kind: OwnerKind,
    m: MigrateDecl,
    cost: spec_fn(Expr) -> nat,
    effects: spec_fn(Expr) -> nat,
) -> nat {
    match past(histories(h, kind), module, owner, m.old_type.version) {
        Some(e) => past_cost(e) + cost(m.body) + effects(m.body),
        None => 0,
    }
}

/// How many variables the first `k` hooks of an owner may need.
pub open spec fn hooks_cost(
    h: VersionHistory,
    module: Seq<char>,
    owner: Seq<char>,
    kind: OwnerKind,
    ms: Seq<MigrateDecl>,
    cost: spec_fn(Expr) -> nat,
    effects: spec_fn(Expr) -> nat,
    k: nat,
) -> nat
    decreases k,
{
    if k == 0 || k > ms.len() {
        0
    } else {
        hooks_cost(h, module, owner, kind, ms, cost, effects, (k - 1) as nat) + hook_cost(
            h,
            module,
            owner,
            kind,
            ms[k - 1],
            cost,
            effects,
        )
    }
}

proof fn hooks_cost_mono(
    h: VersionHistory,
    module: Seq<char>,
    owner: Seq<char>,
    kind: OwnerKind,
    ms: Seq<MigrateDecl>,
    cost: spec_fn(Expr) -> nat,
    effects: spec_fn(Expr) -> nat,
    j: nat,
    k: nat,
)
    requires
        j <= k <= ms.len(),
    ensures
        hooks_cost(h, module, owner, kind, ms, cost, effects, j) <= hooks_cost(
            h,
            module,
            owner,
            kind,
            ms,
            cost,
            effects,
            k,
        ),
    decreases k,
{
    if j < k {
        hooks_cost_mono(h, module, owner, kind, ms, cost, effects, j, (k - 1) as nat);
    }
}

/// How many variables the hooks of an item may need.
pub open spec fn item_cost(
    h: VersionHistory,
    module: Seq<char>,
    item: Item,
    cost: spec_fn(Expr) -> nat,
    effects: spec_fn(Expr) -> nat,
) -> nat {
    match item {
        Item::Type(decl) => hooks_cost(
            h,
            module,
            decl.name.text@,
            OwnerKind::Record,
            decl.migrates@,
            cost,
            effects,
            decl.migrates@.len(),
        ),
        Item::Actor(decl) => hooks_cost(
            h,
            module,
            decl.name.text@,
            OwnerKind::Actor,
            actor_hooks(decl.members@),
            cost,
            effects,
            actor_hooks(decl.members@).len(),
        ),
        _ => 0,
    }
}

/// How many variables the hooks of the first `k` items may need.
pub open spec fn items_cost(
    h: VersionHistory,
    module: Seq<char>,
    items: Seq<Item>,
    cost: spec_fn(Expr) -> nat,
    effects: spec_fn(Expr) -> nat,
    k: nat,
) -> nat
    decreases k,
{
    if k == 0 || k > items.len() {
        0
    } else {
        items_cost(h, module, items, cost, effects, (k - 1) as nat) + item_cost(
            h,
            module,
            items[k - 1],
            cost,
            effects,
        )
    }
}

proof fn items_cost_mono(
    h: VersionHistory,
    module: Seq<char>,
    items: Seq<Item>,
    cost: spec_fn(Expr) -> nat,
    effects: spec_fn(Expr) -> nat,
    j: nat,
    k: nat,
)
    requires
        j <= k <= items.len(),
    ensures
        items_cost(h, module, items, cost, effects, j) <= items_cost(
            h,
            module,
            items,
            cost,
            effects,
            k,
        ),
    decreases k,
{
    if j < k {
        items_cost_mono(h, module, items, cost, effects, j, (k - 1) as nat);
    }
}

fn check_body<
    F: Fn(InferCtx, &Expr) -> (InferCtx, Type),
    C: Fn(InferCtx, &String, &Expr, Span) -> InferCtx,
>(
    ctx: InferCtx,
    b: &BuiltinTyCons,
    hctx: &MigrateHistoryCtx,
    entry: &VersionEntry,
    owner_name: &str,
    m: &MigrateDecl,
    new_ty: &Type,
    infer: &F,
    check_caps: &C,
    Ghost(cost): Ghost<spec_fn(Expr) -> nat>,
    Ghost(effects): Ghost<spec_fn(Expr) -> nat>,
) -> (r: InferCtx)
    requires
        ctx.wf(),
        ctx.has_room((past_cost(*entry) + cost(m.body) + effects(m.body)) as int),
        sure(*infer, cost),
        sure_check(*check_caps, effects),
    ensures
        body_fits(
            *infer,
            *check_caps,
            ctx,
            r,
            owner_name@,
            *m,
            past_type(known(ctx, *b, *hctx), *entry, ctx.table().types.len()),
            new_ty@,
        ),
        ready(ctx, r),
        grew(ctx, r, past_cost(*entry) + cost(m.body) + effects(m.body)),
{
    let ghost c0 = ctx;
    let ghost old = past_type(known(ctx, *b, *hctx), *entry, ctx.table().types.len());
    let mut ctx = ctx;
    let shape = read_entry(entry);
    let fields = types_of_fields(&mut ctx, b, hctx, &shape);
    let old_ty = Type::record(fields, RowTail::Closed);
    assert(old_ty@ == old.0);
    ctx.env.push_frame();
    ctx.env.bind(m.param.text.clone(), monoscheme(old_ty));
    let ghost a = ctx;
    assert(inside_hook(c0, a, m.param.text@, old.0, old.1));
    assert(a.env@.drop_last() =~= c0.env@);
    let (c, body_ty) = infer(ctx, &m.body);
    let ghost out = (c, body_ty);
    assert(call_ensures(*infer, (a, &m.body), out));
    let mut ctx = c;
    ctx.env.pop_frame();
    proof {
        unified_agree(ctx.table(), body_ty@, new_ty@);
    }
    match unify(&mut ctx.vars, &body_ty, new_ty) {
        Ok(()) => {},
        Err(e) => {
            proof {
                tells_clash(e, unified(c.table(), body_ty@, new_ty@).1->0);
            }
            ctx.errors.push(e);
        },
    }
    let ghost z = ctx;
    assert(outside_hook(c, z, body_ty@, new_ty@));
    let ordinal = decimal(m.old_type.version as u128);
    let name = text5("migrate ", owner_name, "@", ordinal.as_str(), "");
    proof {
        reveal_strlit("");
        assert(name@ =~= hook_name(owner_name@, m.old_type.version));
    }
    let d = check_caps(ctx, &name, &m.body, m.span);
    proof {
        assert(call_ensures(*check_caps, (z, &name, &m.body, m.span), d));
        assert(diags(c0.errors@).is_prefix_of(diags(c.errors@)));
        assert(diags(c.errors@).is_prefix_of(diags(z.errors@)));
        assert(diags(z.errors@).is_prefix_of(diags(d.errors@)));
        assert(diags(c0.errors@) =~= diags(d.errors@).take(c0.errors@.len() as int));
    }
    d
}

/// Checks one hook.
fn check_one_hook<
    F: Fn(InferCtx, &Expr) -> (InferCtx, Type),
    C: Fn(InferCtx, &String, &Expr, Span) -> InferCtx,
>(
    ctx: InferCtx,
    b: &BuiltinTyCons,
    hctx: &MigrateHistoryCtx,
    module_fqn: &str,
    owner_name: &str,
    kind: OwnerKind,
    m: &MigrateDecl,
    new_ty: &Type,
    again: bool,
    infer: &F,
    check_caps: &C,
    Ghost(cost): Ghost<spec_fn(Expr) -> nat>,
    Ghost(effects): Ghost<spec_fn(Expr) -> nat>,
) -> (r: InferCtx)
    requires
        ctx.wf(),
        ctx.has_room(
            hook_cost(
                *hctx.history,
                module_fqn@,
                owner_name@,
                kind,
                *m,
                cost,
                effects,
            ) as int,
        ),
        sure(*infer, cost),
        sure_check(*check_caps, effects),
    ensures
        hook_checked(
            *infer,
            *check_caps,
            *b,
            *hctx,
            ctx,
            r,
            module_fqn@,
            owner_name@,
            kind,
            *m,
            new_ty@,
            again,
        ),
        ready(ctx, r),
        grew(
            ctx,
            r,
            hook_cost(
                *hctx.history,
                module_fqn@,
                owner_name@,
                kind,
                *m,
                cost,
                effects,
            ),
        ),
{
    let mut ctx = ctx;
    if again {
        ctx.errors.push(
            TypeError::DuplicateMigration {
                name: owner_name.to_owned(),
                ordinal: m.old_type.version,
                span: m.span,
            },
        );
        return ctx;
    }
    let entry = match kind {
        OwnerKind::Record => find_past(
            &hctx.history.records,
            module_fqn,
            owner_name,
            m.old_type.version,
        ),
        OwnerKind::Actor => find_past(
            &hctx.history.actors,
            module_fqn,
            owner_name,
            m.old_type.version,
        ),
    };
    let ghost found = past(
        histories(*hctx.history, kind),
        module_fqn@,
        owner_name@,
        m.old_type.version,
    );
    match entry {
        Some(e) => {
            assert(found == Some(*e));
            check_body(
                ctx,
                b,
                hctx,
                e,
                owner_name,
                m,
                new_ty,
                infer,
                check_caps,
                Ghost(cost),
                Ghost(effects),
            )
        },
        None => {
            assert(found is None);
            ctx.errors.push(
                TypeError::UnknownTypeVersion {
                    name: m.old_type.name.text.clone(),
                    ordinal: m.old_type.version,
                    span: m.old_type.span,
                },
            );
            ctx
        },
    }
}

/// An earlier hook goes back to the same version.
pub open spec fn goes_again(ms: Seq<MigrateDecl>, k: int) -> bool {
    exists|j: int| 0 <= j < k && (#[trigger] ms[j]).old_type.version == ms[k].old_type.version
}

/// `d` is `c` after the first `k` hooks of an owner were checked, in order.
pub open spec fn hooks_checked<
    F: Fn(InferCtx, &Expr) -> (InferCtx, Type),
    C: Fn(InferCtx, &String, &Expr, Span) -> InferCtx,
>(
    infer: F,
    check_caps: C,
    b: BuiltinTyCons,
    hctx: MigrateHistoryCtx,
    c: InferCtx,
    d: InferCtx,
    module: Seq<char>,
    owner: Seq<char>,
    kind: OwnerKind,
    ms: Seq<MigrateDecl>,
    new_ty: Ty,
    k: nat,
) -> bool
    decreases k,
{
    if k == 0 || k > ms.len() {
        d == c
    } else {
        let hook = ms[k - 1];
        let again = goes_again(ms, k - 1);
        exists|m: InferCtx| #[trigger]
            hook_checked(
                infer,
                check_caps,
                b,
                hctx,
                m,
                d,
                module,
                owner,
                kind,
                hook,
                new_ty,
                again,
            ) && hooks_checked(
                infer,
                check_caps,
                b,
                hctx,
                c,
                m,
                module,
                owner,
                kind,
                ms,
                new_ty,
                (k - 1) as nat,
            )
    }
}

proof fn one_more_hook<
    F: Fn(InferCtx, &Expr) -> (InferCtx, Type),
    C: Fn(InferCtx, &String, &Expr, Span) -> InferCtx,
>(
    infer: F,
    check_caps: C,
    b: BuiltinTyCons,
    hctx: MigrateHistoryCtx,
    c: InferCtx,
    m: InferCtx,
    d: InferCtx,
    module: Seq<char>,
    owner: Seq<char>,
    kind: OwnerKind,
    ms: Seq<MigrateDecl>,
    new_ty: Ty,
    k: nat,
)
    requires
        k < ms.len(),
        hooks_checked(infer, check_caps, b, hctx, c, m, module, owner, kind, ms, new_ty, k),
        hook_checked(
            infer,
            check_caps,
            b,
            hctx,
            m,
            d,
            module,
            owner,
            kind,
            ms[k as int],
            new_ty,
            goes_again(ms, k as int),
        ),
    ensures
        hooks_checked(
            infer,
            check_caps,
            b,
            hctx,
            c,
            d,
            module,
            owner,
            kind,
            ms,
            new_ty,
            (k + 1) as nat,
        ),
{
    assert(hooks_checked(
        infer,
        check_caps,
        b,
        hctx,
        c,
        m,
        module,
        owner,
        kind,
        ms,
        new_ty,
        (k + 1 - 1) as nat,
    ));
}

/// The hooks that a list of references refers to.
pub open spec fn targets(ms: Seq<&MigrateDecl>) -> Seq<MigrateDecl> {
    ms.map_values(|m: &MigrateDecl| *m)
}

fn is_again(ms: &Vec<&MigrateDecl>, k: usize) -> (r: bool)
    requires
        k < ms@.len(),
    ensures
        r == goes_again(targets(ms@), k as int),
{
    let mut j: usize = 0;
    while j < k
        invariant
            j <= k < ms@.len(),
            forall|i: int|
                0 <= i < j ==> (#[trigger] targets(ms@)[i]).old_type.version != ms@[k as int].old_type.version,
        decreases k - j,
    {
        assert(targets(ms@)[j as int] == *ms@[j as int]);
        if ms[j].old_type.version == ms[k].old_type.version {
            return true;
        }
        j = j + 1;
    }
    assert(targets(ms@)[k as int] == *ms@[k as int]);
    false
}

fn check_hooks<
    F: Fn(InferCtx, &Expr) -> (InferCtx, Type),
    C: Fn(InferCtx, &String, &Expr, Span) -> InferCtx,
>(
    ctx: InferCtx,
    b: &BuiltinTyCons,
    hctx: &MigrateHistoryCtx,
    module_fqn: &str,
    owner_name: &str,
    kind: OwnerKind,
    ms: &Vec<&MigrateDecl>,
    new_ty: &Type,
    infer: &F,
    check_caps: &C,
    Ghost(cost): Ghost<spec_fn(Expr) -> nat>,
    Ghost(effects): Ghost<spec_fn(Expr) -> nat>,
) -> (r: InferCtx)
    requires
        ctx.wf(),
        ctx.has_room(
            hooks_cost(
                *hctx.history,
                module_fqn@,
                owner_name@,
                kind,
                targets(ms@),
                cost,
                effects,
                ms@.len(),
            ) as int,
        ),
        sure(*infer, cost),
        sure_check(*check_caps, effects),
    ensures
        hooks_checked(
            *infer,
            *check_caps,
            *b,
            *hctx,
            ctx,
            r,
            module_fqn@,
            owner_name@,
            kind,
            targets(ms@),
            new_ty@,
            ms@.len(),
        ),
        ready(ctx, r),
        grew(
            ctx,
            r,
            hooks_cost(
                *hctx.history,
                module_fqn@,
                owner_name@,
                kind,
                targets(ms@),
                cost,
                effects,
                ms@.len(),
            ),
        ),
{
    let ghost c0 = ctx;
    let ghost all = targets(ms@);
    let mut ctx = ctx;
    let mut i: usize = 0;
    while i < ms.len()
        invariant
            i <= ms@.len(),
            all == targets(ms@),
            sure(*infer, cost),
            sure_check(*check_caps, effects),
            ready(c0, ctx),
            c0.has_room(
            hooks_cost(
                *hctx.history,
                module_fqn@,
                owner_name@,
                kind,
                all,
                cost,
                effects,
                ms@.len(),
            ) as int,
            ),
            grew(
                c0,
                ctx,
            hooks_cost(
                *hctx.history,
                module_fqn@,
                owner_name@,
                kind,
                all,
                cost,
                effects,
                i as nat,
            ),
            ),
            hooks_checked(
                *infer,
                *check_caps,
                *b,
                *hctx,
                c0,
                ctx,
                module_fqn@,
                owner_name@,
                kind,
                all,
                new_ty@,
                i as nat,
            ),
        decreases ms@.len() - i,
    {
        let ghost m = ctx;
        let again = is_again(ms, i);
        assert(all[i as int] == *ms@[i as int]);
        proof {
            hooks_cost_mono(
                *hctx.history,
                module_fqn@,
                owner_name@,
                kind,
                all,
                cost,
                effects,
                (i + 1) as nat,
                ms@.len(),
            );
        }
        ctx = check_one_hook(
            ctx,
            b,
            hctx,
            module_fqn,
            owner_name,
            kind,
            ms[i],
            new_ty,
            again,
            infer,
            check_caps,
            Ghost(cost),
            Ghost(effects),
        );
        proof {
            one_more_hook(
                *infer,
                *check_caps,
                *b,
                *hctx,
                c0,
                m,
                ctx,
                module_fqn@,
                owner_name@,
                kind,
                all,
                new_ty@,
                i as nat,
            );
            ready_twice(c0, m, ctx);
        }
        i = i + 1;
    }
    ctx
}

proof fn ready_twice(c: InferCtx, m: InferCtx, d: InferCtx)
    requires
        ready(c, m),
        ready(m, d),
    ensures
        ready(c, d),
{
    assert(diags(c.errors@) =~= diags(d.errors@).take(c.errors@.len() as int));
}

/// The hooks among the members of an actor.
pub open spec fn actor_hooks(members: Seq<ActorMember>) -> Seq<MigrateDecl>
    decreases members.len(),
{
    if members.len() == 0 {
        Seq::empty()
    } else {
        let before = actor_hooks(members.drop_last());
        match members.last() {
            ActorMember::Migrate(m) => before.push(m),
            _ => before,
        }
    }
}

fn collect_hooks<'a>(members: &'a Vec<ActorMember>) -> (r: Vec<&'a MigrateDecl>)
    ensures
        targets(r@) == actor_hooks(members@),
{
    let mut out: Vec<&'a MigrateDecl> = Vec::new();
    let mut i: usize = 0;
    assert(targets(out@) =~= actor_hooks(members@.take(0)));
    while i < members.len()
        invariant
            i <= members@.len(),
            targets(out@) == actor_hooks(members@.take(i as int)),
        decreases members@.len() - i,
    {
        assert(members@.take(i + 1).drop_last() =~= members@.take(i as int));
        let ghost before = targets(out@);
        if let ActorMember::Migrate(m) = &members[i] {
            out.push(m);
            assert(targets(out@) =~= before.push(*m));
        }
        i = i + 1;
    }
    assert(members@.take(members@.len() as int) =~= members@);
    out
}

fn refer_hooks<'a>(ms: &'a Vec<MigrateDecl>) -> (r: Vec<&'a MigrateDecl>)
    ensures
        targets(r@) == ms@,
{
    let mut out: Vec<&'a MigrateDecl> = Vec::new();
    let mut i: usize = 0;
    while i < ms.len()
        invariant
            i <= ms@.len(),
            out@.len() == i,
            forall|k: int| 0 <= k < i ==> *(#[trigger] out@[k]) == ms@[k],
        decreases ms@.len() - i,
    {
        out.push(&ms[i]);
        i = i + 1;
    }
    assert(targets(out@) =~= ms@);
    out
}

/// The kind of a constructor.
pub open spec fn kind_of(tycons: Seq<TyConDecl>, id: TyConId) -> Option<TyConKind> {
    if id.0 < tycons.len() {
        Some(tycons[id.0 as int].kind)
    } else {
        None
    }
}

/// What a source name refers to.
pub open spec fn refers(c: InferCtx, name: Seq<char>) -> Option<TyConId> {
    if by_name(c.user_tycon_names@).dom().contains(name) {
        Some(by_name(c.user_tycon_names@)[name])
    } else {
        None
    }
}

/// The current type of what the hooks of an item belong to: a record type over
/// its own parameters, or the record of the fields of an actor's state.
pub open spec fn current_type(c: InferCtx, tycons: Seq<TyConDecl>, item: Item) -> Option<Ty> {
    match item {
        Item::Type(decl) => match refers(c, decl.name.text@) {
            Some(id) => match kind_of(tycons, id) {
                Some(TyConKind::Record(schema)) => Some(
                    Ty::Con(id, as_types(schema.params@)),
                ),
                _ => None,
            },
            None => None,
        },
        Item::Actor(decl) => match refers(c, decl.name.text@) {
            Some(id) => match kind_of(tycons, id) {
                Some(TyConKind::Actor(schema)) => Some(
                    row_type(
                        declared_fields(schema.state_fields@),
                        RowTail::Closed,
                    ),
                ),
                _ => None,
            },
            None => None,
        },
        _ => None,
    }
}

/// `d` is `c` after the hooks of an item were checked.
pub open spec fn item_hooks_checked<
    F: Fn(InferCtx, &Expr) -> (InferCtx, Type),
    C: Fn(InferCtx, &String, &Expr, Span) -> InferCtx,
>(
    infer: F,
    check_caps: C,
    b: BuiltinTyCons,
    hctx: MigrateHistoryCtx,
    c: InferCtx,
    d: InferCtx,
    module: Seq<char>,
    tycons: Seq<TyConDecl>,
    item: Item,
) -> bool {
    match current_type(c, tycons, item) {
        Some(new_ty) => match item {
            Item::Type(decl) => hooks_checked(
                infer,
                check_caps,
                b,
                hctx,
                c,
                d,
                module,
                decl.name.text@,
                OwnerKind::Record,
                decl.migrates@,
                new_ty,
                decl.migrates@.len(),
            ),
            Item::Actor(decl) => hooks_checked(
                infer,
                check_caps,
                b,
                hctx,
                c,
                d,
                module,
                decl.name.text@,
                OwnerKind::Actor,
                actor_hooks(decl.members@),
                new_ty,
                actor_hooks(decl.members@).len(),
            ),
            _ => d == c,
        },
        None => d == c,
    }
}

/// `d` is `c` after the hooks of the first `k` items were checked, in order.
pub open spec fn all_hooks_checked<
    F: Fn(InferCtx, &Expr) -> (InferCtx, Type),
    C: Fn(InferCtx, &String, &Expr, Span) -> InferCtx,
>(
    infer: F,
    check_caps: C,
    b: BuiltinTyCons,
    hctx: MigrateHistoryCtx,
    c: InferCtx,
    d: InferCtx,
    module: Seq<char>,
    tycons: Seq<TyConDecl>,
    items: Seq<Item>,
    k: nat,
) -> bool
    decreases k,
{
    if k == 0 || k > items.len() {
        d == c
    } else {
        let item = items[k - 1];
        exists|m: InferCtx| #[trigger]
            item_hooks_checked(infer, check_caps, b, hctx, m, d, module, tycons, item)
                && all_hooks_checked(
                infer,
                check_caps,
                b,
                hctx,
                c,
                m,
                module,
                tycons,
                items,
                (k - 1) as nat,
            )
    }
}

proof fn one_more_item<
    F: Fn(InferCtx, &Expr) -> (InferCtx, Type),
    C: Fn(InferCtx, &String, &Expr, Span) -> InferCtx,
>(
    infer: F,
    check_caps: C,
    b: BuiltinTyCons,
    hctx: MigrateHistoryCtx,
    c: InferCtx,
    m: InferCtx,
    d: InferCtx,
    module: Seq<char>,
    tycons: Seq<TyConDecl>,
    items: Seq<Item>,
    k: nat,
)
    requires
        k < items.len(),
        all_hooks_checked(infer, check_caps, b, hctx, c, m, module, tycons, items, k),
        item_hooks_checked(infer, check_caps, b, hctx, m, d, module, tycons, items[k as int]),
    ensures
        all_hooks_checked(
            infer,
            check_caps,
            b,
            hctx,
            c,
            d,
            module,
            tycons,
            items,
            (k + 1) as nat,
        ),
{
    assert(all_hooks_checked(
        infer,
        check_caps,
        b,
        hctx,
        c,
        m,
        module,
        tycons,
        items,
        (k + 1 - 1) as nat,
    ));
}

fn state_fields(fs: &Vec<RecordField>) -> (r: Vec<(String, Type)>)
    ensures
        field_views(r@) == declared_fields(fs@),
{
    let mut out: Vec<(String, Type)> = Vec::new();
    let mut i: usize = 0;
    while i < fs.len()
        invariant
            i <= fs@.len(),
            out@.len() == i,
            forall|k: int|
                0 <= k < i ==> (#[trigger] out@[k]).0@ == fs@[k].name@ && out@[k].1@ == fs@[k].ty@,
        decreases fs@.len() - i,
    {
        out.push((fs[i].name.clone(), fs[i].ty.clone()));
        i = i + 1;
    }
    assert(field_views(out@) =~= declared_fields(fs@));
    out
}

fn find_current_type(ctx: &InferCtx, tycons: &Vec<TyConDecl>, item: &Item) -> (r: Option<Type>)
    ensures
        r is Some <==> current_type(*ctx, tycons@, *item) is Some,
        r matches Some(t) ==> current_type(*ctx, tycons@, *item) == Some(t@),
{
    match item {
        Item::Type(decl) => match ctx.tycon_named(decl.name.text.as_str()) {
            Some(id) => {
                let at: usize = id.0 as usize;
                if at < tycons.len() {
                    match &tycons[at].kind {
                        TyConKind::Record(schema) => {
                            let args = vars_as_types(&schema.params);
                            let t = Type::Con(id, args);
                            assert(t@ == Ty::Con(id, views(args@)));
                            Some(t)
                        },
                        _ => None,
                    }
                } else {
                    None
                }
            },
            None => None,
        },
        Item::Actor(decl) => match ctx.tycon_named(decl.name.text.as_str()) {
            Some(id) => {
                let at: usize = id.0 as usize;
                if at < tycons.len() {
                    match &tycons[at].kind {
                        TyConKind::Actor(schema) => Some(
                            Type::record(state_fields(&schema.state_fields), RowTail::Closed),
                        ),
                        _ => None,
                    }
                } else {
                    None
                }
            },
            None => None,
        },
        _ => None,
    }
}

/// Checks the hooks of a module: those of its record types and those of its
/// actors. A hook is a function from an earlier version of its owner to the
/// current one, free of effects.
#[must_use]
pub fn typecheck_migrate_hooks<
    F: Fn(InferCtx, &Expr) -> (InferCtx, Type),
    C: Fn(InferCtx, &String, &Expr, Span) -> InferCtx,
>(
    ctx: InferCtx,
    b: &BuiltinTyCons,
    ast: &Module,
    tycons: &Vec<TyConDecl>,
    hctx: &MigrateHistoryCtx,
    module_fqn: &str,
    infer: F,
    check_caps: C,
) -> (r: InferCtx)
    requires
        ctx.wf(),
        exists|cost: spec_fn(Expr) -> nat, effects: spec_fn(Expr) -> nat|
            {
                &&& #[trigger] sure(infer, cost)
                &&& #[trigger] sure_check(check_caps, effects)
                &&& ctx.has_room(
                    items_cost(
                        *hctx.history,
                        module_fqn@,
                        ast.items@,
                        cost,
                        effects,
                        ast.items@.len(),
                    ) as int,
                )
            },
    ensures
        all_hooks_checked(
            infer,
            check_caps,
            *b,
            *hctx,
            ctx,
            r,
            module_fqn@,
            tycons@,
            ast.items@,
            ast.items@.len(),
        ),
        r.wf(),
        r.env@ == ctx.env@,
        diags(ctx.errors@).is_prefix_of(diags(r.errors@)),
{
    let ghost (cost, effects) = choose|cost: spec_fn(Expr) -> nat, effects: spec_fn(Expr) -> nat|
        {
            &&& #[trigger] sure(infer, cost)
            &&& #[trigger] sure_check(check_caps, effects)
            &&& ctx.has_room(
                items_cost(
                    *hctx.history,
                    module_fqn@,
                    ast.items@,
                    cost,
                    effects,
                    ast.items@.len(),
                ) as int,
            )
        };
    let ghost c0 = ctx;
    let mut ctx = ctx;
    let mut i: usize = 0;
    while i < ast.items.len()
        invariant
            i <= ast.items@.len(),
            sure(infer, cost),
            sure_check(check_caps, effects),
            ready(c0, ctx),
            c0.has_room(
                items_cost(
                    *hctx.history,
                    module_fqn@,
                    ast.items@,
                    cost,
                    effects,
                    ast.items@.len(),
                ) as int,
            ),
            grew(
                c0,
                ctx,
                items_cost(*hctx.history, module_fqn@, ast.items@, cost, effects, i as nat),
            ),
            all_hooks_checked(
                infer,
                check_caps,
                *b,
                *hctx,
                c0,
                ctx,
                module_fqn@,
                tycons@,
                ast.items@,
                i as nat,
            ),
        decreases ast.items@.len() - i,
    {
        let ghost m = ctx;
        let item = &ast.items[i];
        proof {
            items_cost_mono(
                *hctx.history,
                module_fqn@,
                ast.items@,
                cost,
                effects,
                (i + 1) as nat,
                ast.items@.len(),
            );
        }
        if let Some(new_ty) = find_current_type(&ctx, tycons, item) {
            match item {
                Item::Type(decl) => {
                    let ms = refer_hooks(&decl.migrates);
                    ctx = check_hooks(
                        ctx,
                        b,
                        hctx,
                        module_fqn,
                        decl.name.text.as_str(),
                        OwnerKind::Record,
                        &ms,
                        &new_ty,
                        &infer,
                        &check_caps,
                        Ghost(cost),
                        Ghost(effects),
                    );
                },
                Item::Actor(decl) => {
                    let ms = collect_hooks(&decl.members);
                    ctx = check_hooks(
                        ctx,
                        b,
                        hctx,
                        module_fqn,
                        decl.name.text.as_str(),
                        OwnerKind::Actor,
                        &ms,
                        &new_ty,
                        &infer,
                        &check_caps,
                        Ghost(cost),
                        Ghost(effects),
                    );
                },
                _ => {},
            }
        }
        assert(item_hooks_checked(
            infer,
            check_caps,
            *b,
            *hctx,
            m,
            ctx,
            module_fqn@,
            tycons@,
            *item,
        ));
        proof {
            one_more_item(
                infer,
                check_caps,
                *b,
                *hctx,
                c0,
                m,
                ctx,
                module_fqn@,
                tycons@,
                ast.items@,
                i as nat,
            );
            ready_twice(c0, m, ctx);
        }
        i = i + 1;
    }
    ctx
}

} // verus!

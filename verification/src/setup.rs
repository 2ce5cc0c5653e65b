use rustc_hash::FxHashMap;
use vstd::prelude::*;

use crate::class_seeds::{
    class_methods_seeded, classes_cost, converts, only_methods, seed_class_methods,
};
use crate::classes::{ClassInfo, ClassTable};
use crate::codec_seeds::{
    prelude_codec_seeds, seed_prelude_codec_schemes, seed_sql_codec_schemes, sql_codec_seeds,
};
use crate::ctx::{with_binding, InferCtx, RowsTycons};
use crate::decls::{affordable, grew};
use crate::fx::{by_name, get_name, no_entries, put_name};
use crate::heads::TypeExpr;
use crate::query_seeds::{
    aggregable_seeds, countable_seeds, decodable_seeds, every_seeds, groupable_seeds,
    orderable_seeds, pageable_seeds, projectable_seeds, refinable_seeds, seed_aggregable_scheme,
    seed_countable_scheme, seed_decodable_scheme, seed_every_scheme, seed_groupable_scheme,
    seed_orderable_scheme, seed_pageable_scheme, seed_projectable_scheme, seed_refinable_scheme,
    seed_summarizable_scheme, summarizable_seeds,
};
use crate::seeds::{can_seed, only_seeded, seeded_none, seeded_twice, seeding, Seeding};
use crate::stdlib_env::{only_bound, Scopes};
use crate::types::{BuiltinTyCons, ClassId, Scheme, TyConId, TyVid, Type};

verus! {

/// A name is bound in a map.
pub open spec fn entry<V>(m: Map<Seq<char>, V>, name: Seq<char>) -> Option<V> {
    if m.dom().contains(name) {
        Some(m[name])
    } else {
        None
    }
}

/// The names of types with those of the first `k` imports. A name that is
/// already there stays what it was.
pub open spec fn with_imported(
    names: Map<Seq<char>, TyConId>,
    imported: Seq<(String, TyConId)>,
    k: nat,
) -> Map<Seq<char>, TyConId>
    decreases k,
{
    if k == 0 || k > imported.len() {
        names
    } else {
        let before = with_imported(names, imported, (k - 1) as nat);
        let (name, id) = imported[k - 1];
        if before.dom().contains(name@) {
            before
        } else {
            before.insert(name@, id)
        }
    }
}

/// Adds the names of imported types. A declaration of the module's own always
/// wins.
pub fn merge_imported_tycons(
    names: &mut FxHashMap<String, TyConId>,
    imported: &Vec<(String, TyConId)>,
)
    ensures
        by_name(final(names)@) == with_imported(
            by_name(old(names)@),
            imported@,
            imported@.len(),
        ),
{
    let ghost first = by_name(names@);
    let mut i: usize = 0;
    while i < imported.len()
        invariant
            i <= imported@.len(),
            first == by_name(old(names)@),
            by_name(names@) == with_imported(first, imported@, i as nat),
        decreases imported@.len() - i,
    {
        let (name, id) = &imported[i];
        if get_name(names, name.as_str()).is_none() {
            put_name(names, name.clone(), *id);
        }
        i = i + 1;
    }
}

proof fn imported_keep(
    names: Map<Seq<char>, TyConId>,
    imported: Seq<(String, TyConId)>,
    k: nat,
    name: Seq<char>,
)
    requires
        names.dom().contains(name),
    ensures
        with_imported(names, imported, k).dom().contains(name),
        with_imported(names, imported, k)[name] == names[name],
    decreases k,
{
    if k > 0 && k <= imported.len() {
        imported_keep(names, imported, (k - 1) as nat, name);
    }
}

/// A type of the module's own is not hidden by an imported one of the same
/// name.
pub proof fn local_types_win(
    names: Map<Seq<char>, TyConId>,
    imported: Seq<(String, TyConId)>,
    name: Seq<char>,
)
    requires
        names.dom().contains(name),
    ensures
        entry(with_imported(names, imported, imported.len()), name) == Some(names[name]),
{
    imported_keep(names, imported, imported.len(), name);
}

/// The names that types can have: those of the standard library, those of the
/// workspace and those of the module.
pub struct TypeNames {
    pub stdlib: Map<Seq<char>, TyConId>,
    pub global: Map<Seq<char>, TyConId>,
    pub user: Map<Seq<char>, TyConId>,
}

/// What a name of a receiver refers to: first in the standard library, then in
/// the workspace, and then in the module.
pub open spec fn receiver(n: TypeNames, name: Seq<char>) -> Option<TyConId> {
    match entry(n.stdlib, name) {
        Some(id) => Some(id),
        None => match entry(n.global, name) {
            Some(id) => Some(id),
            None => entry(n.user, name),
        },
    }
}

/// The type of database values. The standard library's own build, which knows
/// no names of the standard library, has one in source.
pub open spec fn sql_value_type(b: BuiltinTyCons, n: TypeNames) -> TyConId {
    if forall|name: Seq<char>| !(#[trigger] n.stdlib.dom().contains(name)) {
        match entry(n.global, "SqlValue"@) {
            Some(id) => id,
            None => b.sql_value,
        }
    } else {
        b.sql_value
    }
}

/// The type by which a query is ordered.
pub open spec fn sort_order_type(n: TypeNames) -> Option<TyConId> {
    match entry(n.stdlib, "SortOrder"@) {
        Some(id) => Some(id),
        None => entry(n.global, "SortOrder"@),
    }
}

/// The receivers of queries: none without the plain one, the join and the left
/// join. The other joins fall back to the left join.
pub open spec fn rows_types(b: BuiltinTyCons, n: TypeNames) -> Option<RowsTycons> {
    match (receiver(n, "Query"@), receiver(n, "Join"@), receiver(n, "LeftJoin"@)) {
        (Some(query), Some(join), Some(left_join)) => Some(
            RowsTycons {
                query,
                join,
                left_join,
                right_join: match receiver(n, "RightJoin"@) {
                    Some(id) => id,
                    None => left_join,
                },
                full_join: match receiver(n, "FullJoin"@) {
                    Some(id) => id,
                    None => left_join,
                },
                option: b.option,
            },
        ),
        _ => None,
    }
}

/// What is bound of the codecs.
pub open spec fn codec_step(
    b: BuiltinTyCons,
    cs: Seq<ClassInfo>,
    encode: ClassId,
    decode: ClassId,
    sql_value: TyConId,
    s: Seeding,
) -> Seeding {
    sql_codec_seeds(b, cs, sql_value, prelude_codec_seeds(b, encode, decode, s))
}

/// What is bound of the methods on queries.
pub open spec fn query_step(
    b: BuiltinTyCons,
    cs: Seq<ClassInfo>,
    sort_order: Option<TyConId>,
    s: Seeding,
) -> Seeding {
    let s1 = refinable_seeds(b, cs, s);
    let s2 = projectable_seeds(b, cs, s1);
    let s3 = orderable_seeds(b, cs, sort_order, s2);
    let s4 = aggregable_seeds(b, cs, s3);
    let s5 = decodable_seeds(b, cs, s4);
    let s6 = pageable_seeds(b, cs, s5);
    let s7 = countable_seeds(b, cs, s6);
    every_seeds(b, cs, s7)
}

/// What is bound of the methods on groups.
pub open spec fn group_step(
    b: BuiltinTyCons,
    cs: Seq<ClassInfo>,
    grouped: Option<TyConId>,
    sql_value: TyConId,
    s: Seeding,
) -> Seeding {
    summarizable_seeds(b, cs, sql_value, groupable_seeds(b, cs, grouped, s))
}

/// What is bound of the methods of the classes that the language knows.
pub open spec fn method_seeds(
    b: BuiltinTyCons,
    cs: Seq<ClassInfo>,
    encode: ClassId,
    decode: ClassId,
    n: TypeNames,
    s: Seeding,
) -> Seeding {
    let sql_value = sql_value_type(b, n);
    let s1 = codec_step(b, cs, encode, decode, sql_value, s);
    let s2 = query_step(b, cs, sort_order_type(n), s1);
    group_step(b, cs, receiver(n, "Grouped"@), sql_value, s2)
}

proof fn sql_within(b: BuiltinTyCons, cs: Seq<ClassInfo>, sql_value: TyConId, s: Seeding)
    ensures
        sql_codec_seeds(b, cs, sql_value, s).vars <= s.vars + 73,
{
}

proof fn query_within(b: BuiltinTyCons, cs: Seq<ClassInfo>, sort_order: Option<TyConId>, s: Seeding)
    ensures
        refinable_seeds(b, cs, s).vars <= s.vars + 2,
        projectable_seeds(b, cs, s).vars <= s.vars + 4,
        orderable_seeds(b, cs, sort_order, s).vars <= s.vars + 2,
        aggregable_seeds(b, cs, s).vars <= s.vars + 8,
        decodable_seeds(b, cs, s).vars <= s.vars + 2,
        pageable_seeds(b, cs, s).vars <= s.vars + 3,
        countable_seeds(b, cs, s).vars <= s.vars + 2,
        every_seeds(b, cs, s).vars <= s.vars + 2,
{
}

fn find_receiver(
    stdlib: &FxHashMap<String, TyConId>,
    global: &FxHashMap<String, TyConId>,
    user: &FxHashMap<String, TyConId>,
    name: &str,
) -> (r: Option<TyConId>)
    ensures
        r == receiver(
            TypeNames { stdlib: by_name(stdlib@), global: by_name(global@), user: by_name(user@) },
            name@,
        ),
{
    match get_name(stdlib, name) {
        Some(id) => Some(*id),
        None => match get_name(global, name) {
            Some(id) => Some(*id),
            None => match get_name(user, name) {
                Some(id) => Some(*id),
                None => None,
            },
        },
    }
}

fn find_entry(names: &FxHashMap<String, TyConId>, name: &str) -> (r: Option<TyConId>)
    ensures
        r == entry(by_name(names@), name@),
{
    match get_name(names, name) {
        Some(id) => Some(*id),
        None => None,
    }
}

fn seed_codecs(
    ctx: &mut InferCtx,
    b: &BuiltinTyCons,
    class_table: &ClassTable,
    encode: ClassId,
    decode: ClassId,
    sql_value: TyConId,
)
    requires
        can_seed(*old(ctx), 75),
    ensures
        seeding(*final(ctx)) == codec_step(
            *b,
            class_table.classes@,
            encode,
            decode,
            sql_value,
            seeding(*old(ctx)),
        ),
        only_seeded(*old(ctx), *final(ctx)),
        final(ctx).table().types.len() <= old(ctx).table().types.len() + 75,
{
    seed_prelude_codec_schemes(ctx, b, encode, decode);
    let ghost c2 = *ctx;
    proof {
        sql_within(*b, class_table.classes@, sql_value, seeding(c2));
    }
    seed_sql_codec_schemes(ctx, b, class_table, sql_value);
    proof {
        seeded_twice(*old(ctx), c2, *ctx);
    }
}

fn seed_queries(
    ctx: &mut InferCtx,
    b: &BuiltinTyCons,
    class_table: &ClassTable,
    sort_order: Option<TyConId>,
)
    requires
        can_seed(*old(ctx), 25),
    ensures
        seeding(*final(ctx)) == query_step(
            *b,
            class_table.classes@,
            sort_order,
            seeding(*old(ctx)),
        ),
        only_seeded(*old(ctx), *final(ctx)),
        final(ctx).table().types.len() <= old(ctx).table().types.len() + 25,
{
    let ghost cs = class_table.classes@;
    let ghost c0 = *ctx;
    proof {
        seeded_none(*ctx);
    }
    proof {
        query_within(*b, cs, sort_order, seeding(*ctx));
    }
    let ghost c1 = *ctx;
    seed_refinable_scheme(ctx, b, class_table);
    proof {
        seeded_twice(c0, c1, *ctx);
    }
    proof {
        query_within(*b, cs, sort_order, seeding(*ctx));
    }
    let ghost c2 = *ctx;
    seed_projectable_scheme(ctx, b, class_table);
    proof {
        seeded_twice(c0, c2, *ctx);
    }
    proof {
        query_within(*b, cs, sort_order, seeding(*ctx));
    }
    let ghost c3 = *ctx;
    seed_orderable_scheme(ctx, b, class_table, sort_order);
    proof {
        seeded_twice(c0, c3, *ctx);
    }
    proof {
        query_within(*b, cs, sort_order, seeding(*ctx));
    }
    let ghost c4 = *ctx;
    seed_aggregable_scheme(ctx, b, class_table);
    proof {
        seeded_twice(c0, c4, *ctx);
    }
    proof {
        query_within(*b, cs, sort_order, seeding(*ctx));
    }
    let ghost c5 = *ctx;
    seed_decodable_scheme(ctx, b, class_table);
    proof {
        seeded_twice(c0, c5, *ctx);
    }
    proof {
        query_within(*b, cs, sort_order, seeding(*ctx));
    }
    let ghost c6 = *ctx;
    seed_pageable_scheme(ctx, b, class_table);
    proof {
        seeded_twice(c0, c6, *ctx);
    }
    proof {
        query_within(*b, cs, sort_order, seeding(*ctx));
    }
    let ghost c7 = *ctx;
    seed_countable_scheme(ctx, b, class_table);
    proof {
        seeded_twice(c0, c7, *ctx);
    }
    proof {
        query_within(*b, cs, sort_order, seeding(*ctx));
    }
    let ghost c8 = *ctx;
    seed_every_scheme(ctx, b, class_table);
    proof {
        seeded_twice(c0, c8, *ctx);
    }
}

fn find_sql_value(
    b: &BuiltinTyCons,
    stdlib: &FxHashMap<String, TyConId>,
    global: &FxHashMap<String, TyConId>,
    Ghost(n): Ghost<TypeNames>,
) -> (r: TyConId)
    requires
        n.stdlib == by_name(stdlib@),
        n.global == by_name(global@),
    ensures
        r == sql_value_type(*b, n),
{
    if no_entries(stdlib) {
        match find_entry(global, "SqlValue") {
            Some(id) => id,
            None => b.sql_value,
        }
    } else {
        b.sql_value
    }
}

fn find_rows(
    b: &BuiltinTyCons,
    stdlib: &FxHashMap<String, TyConId>,
    global: &FxHashMap<String, TyConId>,
    user: &FxHashMap<String, TyConId>,
) -> (r: Option<RowsTycons>)
    ensures
        r == rows_types(
            *b,
            TypeNames { stdlib: by_name(stdlib@), global: by_name(global@), user: by_name(user@) },
        ),
{
    match (
        find_receiver(stdlib, global, user, "Query"),
        find_receiver(stdlib, global, user, "Join"),
        find_receiver(stdlib, global, user, "LeftJoin"),
    ) {
        (Some(query), Some(join), Some(left_join)) => {
            let right_join = match find_receiver(stdlib, global, user, "RightJoin") {
                Some(id) => id,
                None => left_join,
            };
            let full_join = match find_receiver(stdlib, global, user, "FullJoin") {
                Some(id) => id,
                None => left_join,
            };
            Some(
                RowsTycons { query, join, left_join, right_join, full_join, option: b.option },
            )
        },
        _ => None,
    }
}

/// The names that types can have in a context.
pub open spec fn type_names(
    ctx: InferCtx,
    stdlib: FxHashMap<String, TyConId>,
    global: FxHashMap<String, TyConId>,
) -> TypeNames {
    TypeNames {
        stdlib: by_name(stdlib@),
        global: by_name(global@),
        user: by_name(ctx.user_tycon_names@),
    }
}

/// Room for the variables of the methods of all classes, where the types of
/// signatures may need as many as `types` says.
pub open spec fn seed_room(cs: Seq<ClassInfo>, types: spec_fn(TypeExpr) -> nat) -> nat {
    classes_cost(cs, types, cs.len()) + 103
}

/// `d` is `c` with the methods of the classes that the language knows bound, and
/// with the receivers of queries where all of them are known.
pub open spec fn known_seeded(
    c: InferCtx,
    d: InferCtx,
    b: BuiltinTyCons,
    cs: Seq<ClassInfo>,
    encode: ClassId,
    decode: ClassId,
    n: TypeNames,
) -> bool {
    &&& seeding(d) == method_seeds(b, cs, encode, decode, n, seeding(c))
    &&& d.rows_tycons == match rows_types(b, n) {
        Some(r) => Some(r),
        None => c.rows_tycons,
    }
    &&& only_seeded(c, (InferCtx { rows_tycons: c.rows_tycons, ..d }))
}

/// `d` is `c` with the methods of all classes bound: first those that came with
/// their types, then those of the classes that the language knows.
pub open spec fn methods_seeded<
    V: Fn(InferCtx, &TypeExpr, &FxHashMap<String, TyConId>, &FxHashMap<String, TyVid>) -> (
        InferCtx,
        Type,
    ),
>(
    convert: V,
    c: InferCtx,
    d: InferCtx,
    b: BuiltinTyCons,
    cs: Seq<ClassInfo>,
    encode: ClassId,
    decode: ClassId,
    n: TypeNames,
) -> bool {
    exists|m: InferCtx| #[trigger]
        class_methods_seeded(convert, c, m, cs, n.global) && known_seeded(
            m,
            d,
            b,
            cs,
            encode,
            decode,
            n,
        )
}

fn seed_known(
    ctx: &mut InferCtx,
    b: &BuiltinTyCons,
    class_table: &ClassTable,
    encode: ClassId,
    decode: ClassId,
    stdlib_names: &FxHashMap<String, TyConId>,
    global_names: &FxHashMap<String, TyConId>,
)
    requires
        can_seed(*old(ctx), 103),
    ensures
        final(ctx).wf(),
        final(ctx).table().types.len() <= old(ctx).table().types.len() + 103,
        known_seeded(
            *old(ctx),
            *final(ctx),
            *b,
            class_table.classes@,
            encode,
            decode,
            type_names(*old(ctx), *stdlib_names, *global_names),
        ),
{
    let ghost n = type_names(*ctx, *stdlib_names, *global_names);
    let ghost c0 = *ctx;
    let sql_value = find_sql_value(b, stdlib_names, global_names, Ghost(n));
    seed_codecs(ctx, b, class_table, encode, decode, sql_value);
    let ghost c1 = *ctx;
    let sort_order = match find_entry(stdlib_names, "SortOrder") {
        Some(id) => Some(id),
        None => find_entry(global_names, "SortOrder"),
    };
    seed_queries(ctx, b, class_table, sort_order);
    let ghost c2 = *ctx;
    let rows = find_rows(b, stdlib_names, global_names, &ctx.user_tycon_names);
    let grouped = find_receiver(stdlib_names, global_names, &ctx.user_tycon_names, "Grouped");
    seed_groupable_scheme(ctx, b, class_table, grouped);
    let ghost c3 = *ctx;
    seed_summarizable_scheme(ctx, b, class_table, sql_value);
    proof {
        seeded_twice(c0, c1, c2);
        seeded_twice(c0, c2, c3);
        seeded_twice(c0, c3, *ctx);
    }
    let ghost c4 = *ctx;
    if rows.is_some() {
        ctx.rows_tycons = rows;
    }
    assert(InferCtx { rows_tycons: c0.rows_tycons, ..*ctx } == c4);
}

pub(crate) fn seed_all_methods<
    V: Fn(InferCtx, &TypeExpr, &FxHashMap<String, TyConId>, &FxHashMap<String, TyVid>) -> (
        InferCtx,
        Type,
    ),
>(
    ctx: InferCtx,
    b: &BuiltinTyCons,
    class_table: &ClassTable,
    encode: ClassId,
    decode: ClassId,
    stdlib_names: &FxHashMap<String, TyConId>,
    global_names: &FxHashMap<String, TyConId>,
    convert: &V,
    Ghost(types): Ghost<spec_fn(TypeExpr) -> nat>,
) -> (r: InferCtx)
    requires
        converts(*convert, types),
        affordable(ctx, seed_room(class_table.classes@, types)),
    ensures
        grew(ctx, r, seed_room(class_table.classes@, types)),
        methods_seeded(
            *convert,
            ctx,
            r,
            *b,
            class_table.classes@,
            encode,
            decode,
            type_names(ctx, *stdlib_names, *global_names),
        ),
        only_methods(ctx, (InferCtx { rows_tycons: ctx.rows_tycons, ..r })),
{
    let ghost c0 = ctx;
    let mut ctx = seed_class_methods(ctx, class_table, global_names, convert, Ghost(types));
    let ghost m = ctx;
    seed_known(&mut ctx, b, class_table, encode, decode, stdlib_names, global_names);
    assert(class_methods_seeded(
        *convert,
        c0,
        m,
        class_table.classes@,
        type_names(c0, *stdlib_names, *global_names).global,
    ));
    ctx
}

/// Binds the methods of the classes of a workspace, before anything else: what
/// is bound under the same name later on takes their place.
pub fn seed_methods<
    V: Fn(InferCtx, &TypeExpr, &FxHashMap<String, TyConId>, &FxHashMap<String, TyVid>) -> (
        InferCtx,
        Type,
    ),
>(
    ctx: InferCtx,
    b: &BuiltinTyCons,
    class_table: &ClassTable,
    encode: ClassId,
    decode: ClassId,
    stdlib_names: &FxHashMap<String, TyConId>,
    global_names: &FxHashMap<String, TyConId>,
    convert: &V,
) -> (r: InferCtx)
    requires
        exists|types: spec_fn(TypeExpr) -> nat| #[trigger]
            converts(*convert, types) && affordable(
                ctx,
                seed_room(class_table.classes@, types),
            ),
    ensures
        methods_seeded(
            *convert,
            ctx,
            r,
            *b,
            class_table.classes@,
            encode,
            decode,
            type_names(ctx, *stdlib_names, *global_names),
        ),
        only_methods(ctx, (InferCtx { rows_tycons: ctx.rows_tycons, ..r })),
{
    let ghost types = choose|types: spec_fn(TypeExpr) -> nat| #[trigger]
        converts(*convert, types) && affordable(ctx, seed_room(class_table.classes@, types));
    seed_all_methods(
        ctx,
        b,
        class_table,
        encode,
        decode,
        stdlib_names,
        global_names,
        convert,
        Ghost(types),
    )
}

/// Binds the first `k` of a list of names to their schemes.
pub open spec fn with_schemes(env: Scopes, schemes: Seq<(String, Scheme)>, k: nat) -> Scopes
    decreases k,
{
    if k == 0 || k > schemes.len() {
        env
    } else {
        with_binding(
            with_schemes(env, schemes, (k - 1) as nat),
            schemes[k - 1].0@,
            schemes[k - 1].1@,
        )
    }
}

/// Binds what other modules of the workspace export. A declaration of the
/// module's own is bound later on and takes its place.
pub fn bind_imported_schemes(ctx: &mut InferCtx, schemes: &Vec<(String, Scheme)>)
    requires
        old(ctx).env@.len() > 0,
    ensures
        final(ctx).env@ == with_schemes(old(ctx).env@, schemes@, schemes@.len()),
        only_bound(*old(ctx), *final(ctx)),
{
    let ghost env = ctx.env@;
    let mut i: usize = 0;
    while i < schemes.len()
        invariant
            i <= schemes@.len(),
            env == old(ctx).env@,
            env.len() > 0,
            ctx.env@ == with_schemes(env, schemes@, i as nat),
            only_bound(*old(ctx), *ctx),
        decreases schemes@.len() - i,
    {
        let (name, scheme) = &schemes[i];
        ctx.env.bind(name.clone(), scheme.clone());
        i = i + 1;
    }
}

} // verus!

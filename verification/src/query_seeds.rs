use vstd::prelude::*;

use crate::classes::{class_named, ClassInfo, ClassTable};
use crate::ctx::InferCtx;
use crate::instantiate::fresh_vars;
use crate::seeds::{
    app0, app1, app2, bind_method, bind_seed, can_seed, con0, con1, con2, fresh_n, method,
    no_types, only_seeded, result_of, result_type, row_map, row_map_type, seeded_none,
    seeded_twice, seeding, with_type, Seeding,
};
use crate::types::{views, BuiltinTyCons, ClassId, Poly, Ty, TyConId, TyVid, Type};

verus! {

broadcast use crate::types::group_views;

/// `filter`: `Quote p -> q -> q where Refinable q p`.
pub open spec fn filter_method(b: BuiltinTyCons, class: ClassId, vs: Seq<TyVid>) -> Poly {
    method(
        vs,
        2,
        class,
        seq![
            app1(b.quote, Ty::Var(vs[1])),
            Ty::Var(vs[0]),
        ],
        Ty::Var(vs[0]),
    )
}

fn seed_filter(ctx: &mut InferCtx, b: &BuiltinTyCons, class: ClassId)
    requires
        can_seed(*old(ctx), 2),
    ensures
        seeding(*final(ctx)) == bind_seed(
            seeding(*old(ctx)),
            "filter"@,
            2,
            filter_method(*b, class, fresh_vars(old(ctx).table().types.len(), 2)),
        ),
        only_seeded(*old(ctx), *final(ctx)),
{
    let vs = fresh_n(ctx, 2);
    let params = no_types();
    let params = with_type(params, con1(b.quote, Type::Var(vs[1])));
    let params = with_type(params, Type::Var(vs[0]));
    assert(views(params@) =~= seq![
        app1(b.quote, Ty::Var(vs@[1])),
        Ty::Var(vs@[0]),
    ]);
    let ret = Type::Var(vs[0]);
    bind_method(ctx, "filter", vs, 2, class, params, ret);
}

/// What seeding the methods of `Refinable` binds.
pub open spec fn refinable_seeds(b: BuiltinTyCons, cs: Seq<ClassInfo>, s: Seeding) -> Seeding {
    match class_named(cs, "Refinable"@) {
        Some(class) => {
            let s1 = bind_seed(
                s,
                "filter"@,
                2,
                filter_method(b, class, fresh_vars(s.vars, 2)),
            );
            s1
        },
        None => s,
    }
}

/// Binds `filter`, where the class `Refinable` exists.
pub fn seed_refinable_scheme(ctx: &mut InferCtx, b: &BuiltinTyCons, class_table: &ClassTable)
    requires
        can_seed(*old(ctx), 2),
    ensures
        seeding(*final(ctx)) == refinable_seeds(*b, class_table.classes@, seeding(*old(ctx))),
        only_seeded(*old(ctx), *final(ctx)),
{
    match class_table.id_by_name("Refinable") {
        Some(class) => {
            seed_filter(ctx, b, class);
        },
        None => {
            proof {
                seeded_none(*ctx);
            }
        },
    }
}

/// `select`: `Quote p -> q -> Result (List (Ret p)) Error where Projectable q p`.
pub open spec fn select_method(b: BuiltinTyCons, class: ClassId, vs: Seq<TyVid>) -> Poly {
    method(
        vs,
        2,
        class,
        seq![
            app1(b.quote, Ty::Var(vs[1])),
            Ty::Var(vs[0]),
        ],
        result_of(b, app1(b.list, app1(b.ret, Ty::Var(vs[1])))),
    )
}

fn seed_select(ctx: &mut InferCtx, b: &BuiltinTyCons, class: ClassId)
    requires
        can_seed(*old(ctx), 2),
    ensures
        seeding(*final(ctx)) == bind_seed(
            seeding(*old(ctx)),
            "select"@,
            2,
            select_method(*b, class, fresh_vars(old(ctx).table().types.len(), 2)),
        ),
        only_seeded(*old(ctx), *final(ctx)),
{
    let vs = fresh_n(ctx, 2);
    let params = no_types();
    let params = with_type(params, con1(b.quote, Type::Var(vs[1])));
    let params = with_type(params, Type::Var(vs[0]));
    assert(views(params@) =~= seq![
        app1(b.quote, Ty::Var(vs@[1])),
        Ty::Var(vs@[0]),
    ]);
    let ret = result_type(b, con1(b.list, con1(b.ret, Type::Var(vs[1]))));
    bind_method(ctx, "select", vs, 2, class, params, ret);
}

/// `selectFirst`: `Quote p -> q -> Result (Option (Ret p)) Error where Projectable q p`.
pub open spec fn select_first_method(b: BuiltinTyCons, class: ClassId, vs: Seq<TyVid>) -> Poly {
    method(
        vs,
        2,
        class,
        seq![
            app1(b.quote, Ty::Var(vs[1])),
            Ty::Var(vs[0]),
        ],
        result_of(b, app1(b.option, app1(b.ret, Ty::Var(vs[1])))),
    )
}

fn seed_select_first(ctx: &mut InferCtx, b: &BuiltinTyCons, class: ClassId)
    requires
        can_seed(*old(ctx), 2),
    ensures
        seeding(*final(ctx)) == bind_seed(
            seeding(*old(ctx)),
            "selectFirst"@,
            2,
            select_first_method(*b, class, fresh_vars(old(ctx).table().types.len(), 2)),
        ),
        only_seeded(*old(ctx), *final(ctx)),
{
    let vs = fresh_n(ctx, 2);
    let params = no_types();
    let params = with_type(params, con1(b.quote, Type::Var(vs[1])));
    let params = with_type(params, Type::Var(vs[0]));
    assert(views(params@) =~= seq![
        app1(b.quote, Ty::Var(vs@[1])),
        Ty::Var(vs@[0]),
    ]);
    let ret = result_type(b, con1(b.option, con1(b.ret, Type::Var(vs[1]))));
    bind_method(ctx, "selectFirst", vs, 2, class, params, ret);
}

/// What seeding the methods of `Projectable` binds.
pub open spec fn projectable_seeds(b: BuiltinTyCons, cs: Seq<ClassInfo>, s: Seeding) -> Seeding {
    match class_named(cs, "Projectable"@) {
        Some(class) => {
            let s1 = bind_seed(
                s,
                "select"@,
                2,
                select_method(b, class, fresh_vars(s.vars, 2)),
            );
            let s2 = bind_seed(
                s1,
                "selectFirst"@,
                2,
                select_first_method(b, class, fresh_vars(s1.vars, 2)),
            );
            s2
        },
        None => s,
    }
}

/// Binds `select` and `selectFirst`, where the class `Projectable` exists.
pub fn seed_projectable_scheme(ctx: &mut InferCtx, b: &BuiltinTyCons, class_table: &ClassTable)
    requires
        can_seed(*old(ctx), 4),
    ensures
        seeding(*final(ctx)) == projectable_seeds(*b, class_table.classes@, seeding(*old(ctx))),
        only_seeded(*old(ctx), *final(ctx)),
{
    match class_table.id_by_name("Projectable") {
        Some(class) => {
            let ghost c0 = *ctx;
            seed_select(ctx, b, class);
            let ghost c1 = *ctx;
            seed_select_first(ctx, b, class);
            proof {
                seeded_twice(c0, c1, *ctx);
            }
        },
        None => {
            proof {
                seeded_none(*ctx);
            }
        },
    }
}

/// `orderBy`: `SortOrder -> Quote p -> q -> q where Orderable q p`.
pub open spec fn order_by_method(b: BuiltinTyCons, sort_order: TyConId, class: ClassId, vs: Seq<TyVid>) -> Poly {
    method(
        vs,
        2,
        class,
        seq![
            app0(sort_order),
            app1(b.quote, Ty::Var(vs[1])),
            Ty::Var(vs[0]),
        ],
        Ty::Var(vs[0]),
    )
}

fn seed_order_by(ctx: &mut InferCtx, b: &BuiltinTyCons, sort_order: TyConId, class: ClassId)
    requires
        can_seed(*old(ctx), 2),
    ensures
        seeding(*final(ctx)) == bind_seed(
            seeding(*old(ctx)),
            "orderBy"@,
            2,
            order_by_method(*b, sort_order, class, fresh_vars(old(ctx).table().types.len(), 2)),
        ),
        only_seeded(*old(ctx), *final(ctx)),
{
    let vs = fresh_n(ctx, 2);
    let params = no_types();
    let params = with_type(params, con0(sort_order));
    let params = with_type(params, con1(b.quote, Type::Var(vs[1])));
    let params = with_type(params, Type::Var(vs[0]));
    assert(views(params@) =~= seq![
        app0(sort_order),
        app1(b.quote, Ty::Var(vs@[1])),
        Ty::Var(vs@[0]),
    ]);
    let ret = Type::Var(vs[0]);
    bind_method(ctx, "orderBy", vs, 2, class, params, ret);
}

/// What seeding the methods of `Orderable` binds.
pub open spec fn orderable_seeds(b: BuiltinTyCons, cs: Seq<ClassInfo>, sort_order: Option<TyConId>, s: Seeding) -> Seeding {
    match (class_named(cs, "Orderable"@), sort_order) {
        (Some(class), Some(sort_order)) => {
            let s1 = bind_seed(
                s,
                "orderBy"@,
                2,
                order_by_method(b, sort_order, class, fresh_vars(s.vars, 2)),
            );
            s1
        },
        _ => s,
    }
}

/// Binds `orderBy`, where the class `Orderable` and the type `SortOrder` exist.
pub fn seed_orderable_scheme(ctx: &mut InferCtx, b: &BuiltinTyCons, class_table: &ClassTable, sort_order: Option<TyConId>)
    requires
        can_seed(*old(ctx), 2),
    ensures
        seeding(*final(ctx)) == orderable_seeds(*b, class_table.classes@, sort_order, seeding(*old(ctx))),
        only_seeded(*old(ctx), *final(ctx)),
{
    match (class_table.id_by_name("Orderable"), sort_order) {
        (Some(class), Some(sort_order)) => {
            seed_order_by(ctx, b, sort_order, class);
        },
        _ => {
            proof {
                seeded_none(*ctx);
            }
        },
    }
}

/// `sumOf`, `minOf` and `maxOf`: `Quote p -> q -> Result (Option (Ret p)) Error
/// where Aggregable q p`.
pub open spec fn scalar_of_method(b: BuiltinTyCons, class: ClassId, vs: Seq<TyVid>) -> Poly {
    method(
        vs,
        2,
        class,
        seq![
            app1(b.quote, Ty::Var(vs[1])),
            Ty::Var(vs[0]),
        ],
        result_of(b, app1(b.option, app1(b.ret, Ty::Var(vs[1])))),
    )
}

fn seed_scalar_of(ctx: &mut InferCtx, name: &str, b: &BuiltinTyCons, class: ClassId)
    requires
        can_seed(*old(ctx), 2),
    ensures
        seeding(*final(ctx)) == bind_seed(
            seeding(*old(ctx)),
            name@,
            2,
            scalar_of_method(*b, class, fresh_vars(old(ctx).table().types.len(), 2)),
        ),
        only_seeded(*old(ctx), *final(ctx)),
{
    let vs = fresh_n(ctx, 2);
    let params = no_types();
    let params = with_type(params, con1(b.quote, Type::Var(vs[1])));
    let params = with_type(params, Type::Var(vs[0]));
    assert(views(params@) =~= seq![
        app1(b.quote, Ty::Var(vs@[1])),
        Ty::Var(vs@[0]),
    ]);
    let ret = result_type(b, con1(b.option, con1(b.ret, Type::Var(vs[1]))));
    bind_method(ctx, name, vs, 2, class, params, ret);
}

/// `avgOf`: `Quote p -> q -> Result (Option Float) Error where Aggregable q p`.
pub open spec fn avg_of_method(b: BuiltinTyCons, class: ClassId, vs: Seq<TyVid>) -> Poly {
    method(
        vs,
        2,
        class,
        seq![
            app1(b.quote, Ty::Var(vs[1])),
            Ty::Var(vs[0]),
        ],
        result_of(b, app1(b.option, app0(b.float))),
    )
}

fn seed_avg_of(ctx: &mut InferCtx, b: &BuiltinTyCons, class: ClassId)
    requires
        can_seed(*old(ctx), 2),
    ensures
        seeding(*final(ctx)) == bind_seed(
            seeding(*old(ctx)),
            "avgOf"@,
            2,
            avg_of_method(*b, class, fresh_vars(old(ctx).table().types.len(), 2)),
        ),
        only_seeded(*old(ctx), *final(ctx)),
{
    let vs = fresh_n(ctx, 2);
    let params = no_types();
    let params = with_type(params, con1(b.quote, Type::Var(vs[1])));
    let params = with_type(params, Type::Var(vs[0]));
    assert(views(params@) =~= seq![
        app1(b.quote, Ty::Var(vs@[1])),
        Ty::Var(vs@[0]),
    ]);
    let ret = result_type(b, con1(b.option, con0(b.float)));
    bind_method(ctx, "avgOf", vs, 2, class, params, ret);
}

/// What seeding the methods of `Aggregable` binds.
pub open spec fn aggregable_seeds(b: BuiltinTyCons, cs: Seq<ClassInfo>, s: Seeding) -> Seeding {
    match class_named(cs, "Aggregable"@) {
        Some(class) => {
            let s1 = bind_seed(
                s,
                "sumOf"@,
                2,
                scalar_of_method(b, class, fresh_vars(s.vars, 2)),
            );
            let s2 = bind_seed(
                s1,
                "avgOf"@,
                2,
                avg_of_method(b, class, fresh_vars(s1.vars, 2)),
            );
            let s3 = bind_seed(
                s2,
                "minOf"@,
                2,
                scalar_of_method(b, class, fresh_vars(s2.vars, 2)),
            );
            let s4 = bind_seed(
                s3,
                "maxOf"@,
                2,
                scalar_of_method(b, class, fresh_vars(s3.vars, 2)),
            );
            s4
        },
        None => s,
    }
}

/// Binds the scalar aggregates, where the class `Aggregable` exists.
pub fn seed_aggregable_scheme(ctx: &mut InferCtx, b: &BuiltinTyCons, class_table: &ClassTable)
    requires
        can_seed(*old(ctx), 8),
    ensures
        seeding(*final(ctx)) == aggregable_seeds(*b, class_table.classes@, seeding(*old(ctx))),
        only_seeded(*old(ctx), *final(ctx)),
{
    match class_table.id_by_name("Aggregable") {
        Some(class) => {
            let ghost c0 = *ctx;
            seed_scalar_of(ctx, "sumOf", b, class);
            let ghost c1 = *ctx;
            seed_avg_of(ctx, b, class);
            proof {
                seeded_twice(c0, c1, *ctx);
            }
            let ghost c2 = *ctx;
            seed_scalar_of(ctx, "minOf", b, class);
            proof {
                seeded_twice(c0, c2, *ctx);
            }
            let ghost c3 = *ctx;
            seed_scalar_of(ctx, "maxOf", b, class);
            proof {
                seeded_twice(c0, c3, *ctx);
            }
        },
        None => {
            proof {
                seeded_none(*ctx);
            }
        },
    }
}

/// `toList`: `q -> Result (List (Rows q)) Error where Decodable q`.
pub open spec fn to_list_method(b: BuiltinTyCons, class: ClassId, vs: Seq<TyVid>) -> Poly {
    method(
        vs,
        1,
        class,
        seq![
            Ty::Var(vs[0]),
        ],
        result_of(b, app1(b.list, app1(b.rows, Ty::Var(vs[0])))),
    )
}

fn seed_to_list(ctx: &mut InferCtx, b: &BuiltinTyCons, class: ClassId)
    requires
        can_seed(*old(ctx), 1),
    ensures
        seeding(*final(ctx)) == bind_seed(
            seeding(*old(ctx)),
            "toList"@,
            1,
            to_list_method(*b, class, fresh_vars(old(ctx).table().types.len(), 1)),
        ),
        only_seeded(*old(ctx), *final(ctx)),
{
    let vs = fresh_n(ctx, 1);
    let params = no_types();
    let params = with_type(params, Type::Var(vs[0]));
    assert(views(params@) =~= seq![
        Ty::Var(vs@[0]),
    ]);
    let ret = result_type(b, con1(b.list, con1(b.rows, Type::Var(vs[0]))));
    bind_method(ctx, "toList", vs, 1, class, params, ret);
}

/// `first`: `q -> Result (Option (Rows q)) Error where Decodable q`.
pub open spec fn first_method(b: BuiltinTyCons, class: ClassId, vs: Seq<TyVid>) -> Poly {
    method(
        vs,
        1,
        class,
        seq![
            Ty::Var(vs[0]),
        ],
        result_of(b, app1(b.option, app1(b.rows, Ty::Var(vs[0])))),
    )
}

fn seed_first(ctx: &mut InferCtx, b: &BuiltinTyCons, class: ClassId)
    requires
        can_seed(*old(ctx), 1),
    ensures
        seeding(*final(ctx)) == bind_seed(
            seeding(*old(ctx)),
            "first"@,
            1,
            first_method(*b, class, fresh_vars(old(ctx).table().types.len(), 1)),
        ),
        only_seeded(*old(ctx), *final(ctx)),
{
    let vs = fresh_n(ctx, 1);
    let params = no_types();
    let params = with_type(params, Type::Var(vs[0]));
    assert(views(params@) =~= seq![
        Ty::Var(vs@[0]),
    ]);
    let ret = result_type(b, con1(b.option, con1(b.rows, Type::Var(vs[0]))));
    bind_method(ctx, "first", vs, 1, class, params, ret);
}

/// What seeding the methods of `Decodable` binds.
pub open spec fn decodable_seeds(b: BuiltinTyCons, cs: Seq<ClassInfo>, s: Seeding) -> Seeding {
    match class_named(cs, "Decodable"@) {
        Some(class) => {
            let s1 = bind_seed(
                s,
                "toList"@,
                1,
                to_list_method(b, class, fresh_vars(s.vars, 1)),
            );
            let s2 = bind_seed(
                s1,
                "first"@,
                1,
                first_method(b, class, fresh_vars(s1.vars, 1)),
            );
            s2
        },
        None => s,
    }
}

/// Binds `toList` and `first`, where the class `Decodable` exists.
pub fn seed_decodable_scheme(ctx: &mut InferCtx, b: &BuiltinTyCons, class_table: &ClassTable)
    requires
        can_seed(*old(ctx), 2),
    ensures
        seeding(*final(ctx)) == decodable_seeds(*b, class_table.classes@, seeding(*old(ctx))),
        only_seeded(*old(ctx), *final(ctx)),
{
    match class_table.id_by_name("Decodable") {
        Some(class) => {
            let ghost c0 = *ctx;
            seed_to_list(ctx, b, class);
            let ghost c1 = *ctx;
            seed_first(ctx, b, class);
            proof {
                seeded_twice(c0, c1, *ctx);
            }
        },
        None => {
            proof {
                seeded_none(*ctx);
            }
        },
    }
}

/// `limit` and `offset`: `Int -> q -> q where Pageable q`.
pub open spec fn bound_method(b: BuiltinTyCons, class: ClassId, vs: Seq<TyVid>) -> Poly {
    method(
        vs,
        1,
        class,
        seq![
            app0(b.int),
            Ty::Var(vs[0]),
        ],
        Ty::Var(vs[0]),
    )
}

fn seed_bound(ctx: &mut InferCtx, name: &str, b: &BuiltinTyCons, class: ClassId)
    requires
        can_seed(*old(ctx), 1),
    ensures
        seeding(*final(ctx)) == bind_seed(
            seeding(*old(ctx)),
            name@,
            1,
            bound_method(*b, class, fresh_vars(old(ctx).table().types.len(), 1)),
        ),
        only_seeded(*old(ctx), *final(ctx)),
{
    let vs = fresh_n(ctx, 1);
    let params = no_types();
    let params = with_type(params, con0(b.int));
    let params = with_type(params, Type::Var(vs[0]));
    assert(views(params@) =~= seq![
        app0(b.int),
        Ty::Var(vs@[0]),
    ]);
    let ret = Type::Var(vs[0]);
    bind_method(ctx, name, vs, 1, class, params, ret);
}

/// `distinct`: `q -> q where Pageable q`.
pub open spec fn distinct_method(b: BuiltinTyCons, class: ClassId, vs: Seq<TyVid>) -> Poly {
    method(
        vs,
        1,
        class,
        seq![
            Ty::Var(vs[0]),
        ],
        Ty::Var(vs[0]),
    )
}

fn seed_distinct(ctx: &mut InferCtx, b: &BuiltinTyCons, class: ClassId)
    requires
        can_seed(*old(ctx), 1),
    ensures
        seeding(*final(ctx)) == bind_seed(
            seeding(*old(ctx)),
            "distinct"@,
            1,
            distinct_method(*b, class, fresh_vars(old(ctx).table().types.len(), 1)),
        ),
        only_seeded(*old(ctx), *final(ctx)),
{
    let vs = fresh_n(ctx, 1);
    let params = no_types();
    let params = with_type(params, Type::Var(vs[0]));
    assert(views(params@) =~= seq![
        Ty::Var(vs@[0]),
    ]);
    let ret = Type::Var(vs[0]);
    bind_method(ctx, "distinct", vs, 1, class, params, ret);
}

/// What seeding the methods of `Pageable` binds.
pub open spec fn pageable_seeds(b: BuiltinTyCons, cs: Seq<ClassInfo>, s: Seeding) -> Seeding {
    match class_named(cs, "Pageable"@) {
        Some(class) => {
            let s1 = bind_seed(
                s,
                "limit"@,
                1,
                bound_method(b, class, fresh_vars(s.vars, 1)),
            );
            let s2 = bind_seed(
                s1,
                "offset"@,
                1,
                bound_method(b, class, fresh_vars(s1.vars, 1)),
            );
            let s3 = bind_seed(
                s2,
                "distinct"@,
                1,
                distinct_method(b, class, fresh_vars(s2.vars, 1)),
            );
            s3
        },
        None => s,
    }
}

/// Binds `limit`, `offset` and `distinct`, where the class `Pageable` exists.
pub fn seed_pageable_scheme(ctx: &mut InferCtx, b: &BuiltinTyCons, class_table: &ClassTable)
    requires
        can_seed(*old(ctx), 3),
    ensures
        seeding(*final(ctx)) == pageable_seeds(*b, class_table.classes@, seeding(*old(ctx))),
        only_seeded(*old(ctx), *final(ctx)),
{
    match class_table.id_by_name("Pageable") {
        Some(class) => {
            let ghost c0 = *ctx;
            seed_bound(ctx, "limit", b, class);
            let ghost c1 = *ctx;
            seed_bound(ctx, "offset", b, class);
            proof {
                seeded_twice(c0, c1, *ctx);
            }
            let ghost c2 = *ctx;
            seed_distinct(ctx, b, class);
            proof {
                seeded_twice(c0, c2, *ctx);
            }
        },
        None => {
            proof {
                seeded_none(*ctx);
            }
        },
    }
}

/// `count`: `q -> Result Int Error where Countable q`.
pub open spec fn count_method(b: BuiltinTyCons, class: ClassId, vs: Seq<TyVid>) -> Poly {
    method(
        vs,
        1,
        class,
        seq![
            Ty::Var(vs[0]),
        ],
        result_of(b, app0(b.int)),
    )
}

fn seed_count(ctx: &mut InferCtx, b: &BuiltinTyCons, class: ClassId)
    requires
        can_seed(*old(ctx), 1),
    ensures
        seeding(*final(ctx)) == bind_seed(
            seeding(*old(ctx)),
            "count"@,
            1,
            count_method(*b, class, fresh_vars(old(ctx).table().types.len(), 1)),
        ),
        only_seeded(*old(ctx), *final(ctx)),
{
    let vs = fresh_n(ctx, 1);
    let params = no_types();
    let params = with_type(params, Type::Var(vs[0]));
    assert(views(params@) =~= seq![
        Ty::Var(vs@[0]),
    ]);
    let ret = result_type(b, con0(b.int));
    bind_method(ctx, "count", vs, 1, class, params, ret);
}

/// `exists`: `q -> Result Bool Error where Countable q`.
pub open spec fn exists_method(b: BuiltinTyCons, class: ClassId, vs: Seq<TyVid>) -> Poly {
    method(
        vs,
        1,
        class,
        seq![
            Ty::Var(vs[0]),
        ],
        result_of(b, app0(b.bool)),
    )
}

fn seed_exists(ctx: &mut InferCtx, b: &BuiltinTyCons, class: ClassId)
    requires
        can_seed(*old(ctx), 1),
    ensures
        seeding(*final(ctx)) == bind_seed(
            seeding(*old(ctx)),
            "exists"@,
            1,
            exists_method(*b, class, fresh_vars(old(ctx).table().types.len(), 1)),
        ),
        only_seeded(*old(ctx), *final(ctx)),
{
    let vs = fresh_n(ctx, 1);
    let params = no_types();
    let params = with_type(params, Type::Var(vs[0]));
    assert(views(params@) =~= seq![
        Ty::Var(vs@[0]),
    ]);
    let ret = result_type(b, con0(b.bool));
    bind_method(ctx, "exists", vs, 1, class, params, ret);
}

/// What seeding the methods of `Countable` binds.
pub open spec fn countable_seeds(b: BuiltinTyCons, cs: Seq<ClassInfo>, s: Seeding) -> Seeding {
    match class_named(cs, "Countable"@) {
        Some(class) => {
            let s1 = bind_seed(
                s,
                "count"@,
                1,
                count_method(b, class, fresh_vars(s.vars, 1)),
            );
            let s2 = bind_seed(
                s1,
                "exists"@,
                1,
                exists_method(b, class, fresh_vars(s1.vars, 1)),
            );
            s2
        },
        None => s,
    }
}

/// Binds `count` and `exists`, where the class `Countable` exists.
pub fn seed_countable_scheme(ctx: &mut InferCtx, b: &BuiltinTyCons, class_table: &ClassTable)
    requires
        can_seed(*old(ctx), 2),
    ensures
        seeding(*final(ctx)) == countable_seeds(*b, class_table.classes@, seeding(*old(ctx))),
        only_seeded(*old(ctx), *final(ctx)),
{
    match class_table.id_by_name("Countable") {
        Some(class) => {
            let ghost c0 = *ctx;
            seed_count(ctx, b, class);
            let ghost c1 = *ctx;
            seed_exists(ctx, b, class);
            proof {
                seeded_twice(c0, c1, *ctx);
            }
        },
        None => {
            proof {
                seeded_none(*ctx);
            }
        },
    }
}

/// `every`: `Quote p -> q -> Result Bool Error where Every q p`.
pub open spec fn every_method(b: BuiltinTyCons, class: ClassId, vs: Seq<TyVid>) -> Poly {
    method(
        vs,
        2,
        class,
        seq![
            app1(b.quote, Ty::Var(vs[1])),
            Ty::Var(vs[0]),
        ],
        result_of(b, app0(b.bool)),
    )
}

fn seed_every(ctx: &mut InferCtx, b: &BuiltinTyCons, class: ClassId)
    requires
        can_seed(*old(ctx), 2),
    ensures
        seeding(*final(ctx)) == bind_seed(
            seeding(*old(ctx)),
            "every"@,
            2,
            every_method(*b, class, fresh_vars(old(ctx).table().types.len(), 2)),
        ),
        only_seeded(*old(ctx), *final(ctx)),
{
    let vs = fresh_n(ctx, 2);
    let params = no_types();
    let params = with_type(params, con1(b.quote, Type::Var(vs[1])));
    let params = with_type(params, Type::Var(vs[0]));
    assert(views(params@) =~= seq![
        app1(b.quote, Ty::Var(vs@[1])),
        Ty::Var(vs@[0]),
    ]);
    let ret = result_type(b, con0(b.bool));
    bind_method(ctx, "every", vs, 2, class, params, ret);
}

/// What seeding the methods of `Every` binds.
pub open spec fn every_seeds(b: BuiltinTyCons, cs: Seq<ClassInfo>, s: Seeding) -> Seeding {
    match class_named(cs, "Every"@) {
        Some(class) => {
            let s1 = bind_seed(
                s,
                "every"@,
                2,
                every_method(b, class, fresh_vars(s.vars, 2)),
            );
            s1
        },
        None => s,
    }
}

/// Binds `every`, where the class `Every` exists.
pub fn seed_every_scheme(ctx: &mut InferCtx, b: &BuiltinTyCons, class_table: &ClassTable)
    requires
        can_seed(*old(ctx), 2),
    ensures
        seeding(*final(ctx)) == every_seeds(*b, class_table.classes@, seeding(*old(ctx))),
        only_seeded(*old(ctx), *final(ctx)),
{
    match class_table.id_by_name("Every") {
        Some(class) => {
            seed_every(ctx, b, class);
        },
        None => {
            proof {
                seeded_none(*ctx);
            }
        },
    }
}

/// `groupBy`: `Quote p -> q -> Grouped q p where Groupable q p`.
pub open spec fn group_by_method(b: BuiltinTyCons, grouped: TyConId, class: ClassId, vs: Seq<TyVid>) -> Poly {
    method(
        vs,
        2,
        class,
        seq![
            app1(b.quote, Ty::Var(vs[1])),
            Ty::Var(vs[0]),
        ],
        app2(grouped, Ty::Var(vs[0]), Ty::Var(vs[1])),
    )
}

fn seed_group_by(ctx: &mut InferCtx, b: &BuiltinTyCons, grouped: TyConId, class: ClassId)
    requires
        can_seed(*old(ctx), 2),
    ensures
        seeding(*final(ctx)) == bind_seed(
            seeding(*old(ctx)),
            "groupBy"@,
            2,
            group_by_method(*b, grouped, class, fresh_vars(old(ctx).table().types.len(), 2)),
        ),
        only_seeded(*old(ctx), *final(ctx)),
{
    let vs = fresh_n(ctx, 2);
    let params = no_types();
    let params = with_type(params, con1(b.quote, Type::Var(vs[1])));
    let params = with_type(params, Type::Var(vs[0]));
    assert(views(params@) =~= seq![
        app1(b.quote, Ty::Var(vs@[1])),
        Ty::Var(vs@[0]),
    ]);
    let ret = con2(grouped, Type::Var(vs[0]), Type::Var(vs[1]));
    bind_method(ctx, "groupBy", vs, 2, class, params, ret);
}

/// What seeding the methods of `Groupable` binds.
pub open spec fn groupable_seeds(b: BuiltinTyCons, cs: Seq<ClassInfo>, grouped: Option<TyConId>, s: Seeding) -> Seeding {
    match (class_named(cs, "Groupable"@), grouped) {
        (Some(class), Some(grouped)) => {
            let s1 = bind_seed(
                s,
                "groupBy"@,
                2,
                group_by_method(b, grouped, class, fresh_vars(s.vars, 2)),
            );
            s1
        },
        _ => s,
    }
}

/// Binds `groupBy`, where the class `Groupable` and the type `Grouped` exist.
pub fn seed_groupable_scheme(ctx: &mut InferCtx, b: &BuiltinTyCons, class_table: &ClassTable, grouped: Option<TyConId>)
    requires
        can_seed(*old(ctx), 2),
    ensures
        seeding(*final(ctx)) == groupable_seeds(*b, class_table.classes@, grouped, seeding(*old(ctx))),
        only_seeded(*old(ctx), *final(ctx)),
{
    match (class_table.id_by_name("Groupable"), grouped) {
        (Some(class), Some(grouped)) => {
            seed_group_by(ctx, b, grouped, class);
        },
        _ => {
            proof {
                seeded_none(*ctx);
            }
        },
    }
}

/// `runGroups`: `q -> Text -> Bool -> QExpr -> QExpr -> Result (List (Map Text
/// SqlValue)) Error where Summarizable q`.
pub open spec fn run_groups_method(b: BuiltinTyCons, sql_value: TyConId, class: ClassId, vs: Seq<TyVid>) -> Poly {
    method(
        vs,
        1,
        class,
        seq![
            Ty::Var(vs[0]),
            app0(b.text),
            app0(b.bool),
            app0(b.q_expr),
            app0(b.q_expr),
        ],
        result_of(b, app1(b.list, row_map(b, sql_value))),
    )
}

fn seed_run_groups(ctx: &mut InferCtx, b: &BuiltinTyCons, sql_value: TyConId, class: ClassId)
    requires
        can_seed(*old(ctx), 1),
    ensures
        seeding(*final(ctx)) == bind_seed(
            seeding(*old(ctx)),
            "runGroups"@,
            1,
            run_groups_method(*b, sql_value, class, fresh_vars(old(ctx).table().types.len(), 1)),
        ),
        only_seeded(*old(ctx), *final(ctx)),
{
    let vs = fresh_n(ctx, 1);
    let params = no_types();
    let params = with_type(params, Type::Var(vs[0]));
    let params = with_type(params, con0(b.text));
    let params = with_type(params, con0(b.bool));
    let params = with_type(params, con0(b.q_expr));
    let params = with_type(params, con0(b.q_expr));
    assert(views(params@) =~= seq![
        Ty::Var(vs@[0]),
        app0(b.text),
        app0(b.bool),
        app0(b.q_expr),
        app0(b.q_expr),
    ]);
    let ret = result_type(b, con1(b.list, row_map_type(b, sql_value)));
    bind_method(ctx, "runGroups", vs, 1, class, params, ret);
}

/// What seeding the methods of `Summarizable` binds.
pub open spec fn summarizable_seeds(b: BuiltinTyCons, cs: Seq<ClassInfo>, sql_value: TyConId, s: Seeding) -> Seeding {
    match class_named(cs, "Summarizable"@) {
        Some(class) => {
            let s1 = bind_seed(
                s,
                "runGroups"@,
                1,
                run_groups_method(b, sql_value, class, fresh_vars(s.vars, 1)),
            );
            s1
        },
        None => s,
    }
}

/// Binds `runGroups`, where the class `Summarizable` exists.
pub fn seed_summarizable_scheme(ctx: &mut InferCtx, b: &BuiltinTyCons, class_table: &ClassTable, sql_value: TyConId)
    requires
        can_seed(*old(ctx), 1),
    ensures
        seeding(*final(ctx)) == summarizable_seeds(*b, class_table.classes@, sql_value, seeding(*old(ctx))),
        only_seeded(*old(ctx), *final(ctx)),
{
    match class_table.id_by_name("Summarizable") {
        Some(class) => {
            seed_run_groups(ctx, b, sql_value, class);
        },
        None => {
            proof {
                seeded_none(*ctx);
            }
        },
    }
}

} // verus!

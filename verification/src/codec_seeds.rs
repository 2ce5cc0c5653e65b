use vstd::prelude::*;

use crate::classes::{class_named, ClassInfo, ClassTable};
use crate::ctx::InferCtx;
use crate::instantiate::fresh_vars;
use crate::seeds::{
    app0, app1, bind_method, bind_seed, can_seed, con0, con1, fresh_n, join_order_keys,
    join_order_keys_type, method, no_types, only_seeded, order_keys, order_keys_type, result_of,
    result_type, row_map, row_map_type, row_predicate, row_predicate_type, seeded_none,
    seeded_twice, seeding, tuple2, with_type, Seeding,
};
use crate::types::{views, BuiltinTyCons, ClassId, Poly, Ty, TyConId, TyVid, Type};

verus! {

broadcast use crate::types::group_views;

/// `encode`: `a -> JsonValue where Encode a`.
pub open spec fn encode_method(b: BuiltinTyCons, class: ClassId, vs: Seq<TyVid>) -> Poly {
    method(
        vs,
        1,
        class,
        seq![
            Ty::Var(vs[0]),
        ],
        app0(b.json_value),
    )
}

fn seed_encode(ctx: &mut InferCtx, b: &BuiltinTyCons, class: ClassId)
    requires
        can_seed(*old(ctx), 1),
    ensures
        seeding(*final(ctx)) == bind_seed(
            seeding(*old(ctx)),
            "encode"@,
            1,
            encode_method(*b, class, fresh_vars(old(ctx).table().types.len(), 1)),
        ),
        only_seeded(*old(ctx), *final(ctx)),
{
    let vs = fresh_n(ctx, 1);
    let params = no_types();
    let params = with_type(params, Type::Var(vs[0]));
    assert(views(params@) =~= seq![
        Ty::Var(vs@[0]),
    ]);
    let ret = con0(b.json_value);
    bind_method(ctx, "encode", vs, 1, class, params, ret);
}

/// `decode`: `JsonValue -> Result a Error where Decode a`.
pub open spec fn decode_method(b: BuiltinTyCons, class: ClassId, vs: Seq<TyVid>) -> Poly {
    method(
        vs,
        1,
        class,
        seq![
            app0(b.json_value),
        ],
        result_of(b, Ty::Var(vs[0])),
    )
}

fn seed_decode(ctx: &mut InferCtx, b: &BuiltinTyCons, class: ClassId)
    requires
        can_seed(*old(ctx), 1),
    ensures
        seeding(*final(ctx)) == bind_seed(
            seeding(*old(ctx)),
            "decode"@,
            1,
            decode_method(*b, class, fresh_vars(old(ctx).table().types.len(), 1)),
        ),
        only_seeded(*old(ctx), *final(ctx)),
{
    let vs = fresh_n(ctx, 1);
    let params = no_types();
    let params = with_type(params, con0(b.json_value));
    assert(views(params@) =~= seq![
        app0(b.json_value),
    ]);
    let ret = result_type(b, Type::Var(vs[0]));
    bind_method(ctx, "decode", vs, 1, class, params, ret);
}

/// What seeding the methods of the prelude codecs binds.
pub open spec fn prelude_codec_seeds(
    b: BuiltinTyCons,
    encode: ClassId,
    decode: ClassId,
    s: Seeding,
) -> Seeding {
    let s1 = bind_seed(s, "encode"@, 1, encode_method(b, encode, fresh_vars(s.vars, 1)));
    bind_seed(s1, "decode"@, 1, decode_method(b, decode, fresh_vars(s1.vars, 1)))
}

/// Binds `encode` and `decode`, the methods of the two classes given.
pub fn seed_prelude_codec_schemes(
    ctx: &mut InferCtx,
    b: &BuiltinTyCons,
    encode: ClassId,
    decode: ClassId,
)
    requires
        can_seed(*old(ctx), 2),
    ensures
        seeding(*final(ctx)) == prelude_codec_seeds(*b, encode, decode, seeding(*old(ctx))),
        only_seeded(*old(ctx), *final(ctx)),
{
    seed_encode(ctx, b, encode);
    let ghost c1 = *ctx;
    seed_decode(ctx, b, decode);
    proof {
        seeded_twice(*old(ctx), c1, *ctx);
    }
}

/// `toSql`: `a -> SqlValue where SqlType a`.
pub open spec fn to_sql_method(b: BuiltinTyCons, sql_value: TyConId, class: ClassId, vs: Seq<TyVid>) -> Poly {
    method(
        vs,
        1,
        class,
        seq![
            Ty::Var(vs[0]),
        ],
        app0(sql_value),
    )
}

fn seed_to_sql(ctx: &mut InferCtx, b: &BuiltinTyCons, sql_value: TyConId, class: ClassId)
    requires
        can_seed(*old(ctx), 1),
    ensures
        seeding(*final(ctx)) == bind_seed(
            seeding(*old(ctx)),
            "toSql"@,
            1,
            to_sql_method(*b, sql_value, class, fresh_vars(old(ctx).table().types.len(), 1)),
        ),
        only_seeded(*old(ctx), *final(ctx)),
{
    let vs = fresh_n(ctx, 1);
    let params = no_types();
    let params = with_type(params, Type::Var(vs[0]));
    assert(views(params@) =~= seq![
        Ty::Var(vs@[0]),
    ]);
    let ret = con0(sql_value);
    bind_method(ctx, "toSql", vs, 1, class, params, ret);
}

/// `fromSql`: `SqlValue -> Result a Error where SqlType a`.
pub open spec fn from_sql_method(b: BuiltinTyCons, sql_value: TyConId, class: ClassId, vs: Seq<TyVid>) -> Poly {
    method(
        vs,
        1,
        class,
        seq![
            app0(sql_value),
        ],
        result_of(b, Ty::Var(vs[0])),
    )
}

fn seed_from_sql(ctx: &mut InferCtx, b: &BuiltinTyCons, sql_value: TyConId, class: ClassId)
    requires
        can_seed(*old(ctx), 1),
    ensures
        seeding(*final(ctx)) == bind_seed(
            seeding(*old(ctx)),
            "fromSql"@,
            1,
            from_sql_method(*b, sql_value, class, fresh_vars(old(ctx).table().types.len(), 1)),
        ),
        only_seeded(*old(ctx), *final(ctx)),
{
    let vs = fresh_n(ctx, 1);
    let params = no_types();
    let params = with_type(params, con0(sql_value));
    assert(views(params@) =~= seq![
        app0(sql_value),
    ]);
    let ret = result_type(b, Type::Var(vs[0]));
    bind_method(ctx, "fromSql", vs, 1, class, params, ret);
}

/// `fromRow`: `Map Text SqlValue -> Result a Error where Row a`.
pub open spec fn from_row_method(b: BuiltinTyCons, sql_value: TyConId, class: ClassId, vs: Seq<TyVid>) -> Poly {
    method(
        vs,
        1,
        class,
        seq![
            row_map(b, sql_value),
        ],
        result_of(b, Ty::Var(vs[0])),
    )
}

fn seed_from_row(ctx: &mut InferCtx, b: &BuiltinTyCons, sql_value: TyConId, class: ClassId)
    requires
        can_seed(*old(ctx), 1),
    ensures
        seeding(*final(ctx)) == bind_seed(
            seeding(*old(ctx)),
            "fromRow"@,
            1,
            from_row_method(*b, sql_value, class, fresh_vars(old(ctx).table().types.len(), 1)),
        ),
        only_seeded(*old(ctx), *final(ctx)),
{
    let vs = fresh_n(ctx, 1);
    let params = no_types();
    let params = with_type(params, row_map_type(b, sql_value));
    assert(views(params@) =~= seq![
        row_map(*b, sql_value),
    ]);
    let ret = result_type(b, Type::Var(vs[0]));
    bind_method(ctx, "fromRow", vs, 1, class, params, ret);
}

/// `toRow`: `a -> Map Text SqlValue where Row a`.
pub open spec fn to_row_method(b: BuiltinTyCons, sql_value: TyConId, class: ClassId, vs: Seq<TyVid>) -> Poly {
    method(
        vs,
        1,
        class,
        seq![
            Ty::Var(vs[0]),
        ],
        row_map(b, sql_value),
    )
}

fn seed_to_row(ctx: &mut InferCtx, b: &BuiltinTyCons, sql_value: TyConId, class: ClassId)
    requires
        can_seed(*old(ctx), 1),
    ensures
        seeding(*final(ctx)) == bind_seed(
            seeding(*old(ctx)),
            "toRow"@,
            1,
            to_row_method(*b, sql_value, class, fresh_vars(old(ctx).table().types.len(), 1)),
        ),
        only_seeded(*old(ctx), *final(ctx)),
{
    let vs = fresh_n(ctx, 1);
    let params = no_types();
    let params = with_type(params, Type::Var(vs[0]));
    assert(views(params@) =~= seq![
        Ty::Var(vs@[0]),
    ]);
    let ret = row_map_type(b, sql_value);
    bind_method(ctx, "toRow", vs, 1, class, params, ret);
}

/// `appendRow`: `a -> Text -> Map Text SqlValue -> Result Unit Error where
/// Adapter a`.
pub open spec fn append_row_method(b: BuiltinTyCons, sql_value: TyConId, class: ClassId, vs: Seq<TyVid>) -> Poly {
    method(
        vs,
        1,
        class,
        seq![
            Ty::Var(vs[0]),
            app0(b.text),
            row_map(b, sql_value),
        ],
        result_of(b, app0(b.unit)),
    )
}

fn seed_append_row(ctx: &mut InferCtx, b: &BuiltinTyCons, sql_value: TyConId, class: ClassId)
    requires
        can_seed(*old(ctx), 1),
    ensures
        seeding(*final(ctx)) == bind_seed(
            seeding(*old(ctx)),
            "appendRow"@,
            1,
            append_row_method(*b, sql_value, class, fresh_vars(old(ctx).table().types.len(), 1)),
        ),
        only_seeded(*old(ctx), *final(ctx)),
{
    let vs = fresh_n(ctx, 1);
    let params = no_types();
    let params = with_type(params, Type::Var(vs[0]));
    let params = with_type(params, con0(b.text));
    let params = with_type(params, row_map_type(b, sql_value));
    assert(views(params@) =~= seq![
        Ty::Var(vs@[0]),
        app0(b.text),
        row_map(*b, sql_value),
    ]);
    let ret = result_type(b, con0(b.unit));
    bind_method(ctx, "appendRow", vs, 1, class, params, ret);
}

/// `all`: `a -> Text -> Result (List (Map Text SqlValue)) Error where Adapter a`.
pub open spec fn all_method(b: BuiltinTyCons, sql_value: TyConId, class: ClassId, vs: Seq<TyVid>) -> Poly {
    method(
        vs,
        1,
        class,
        seq![
            Ty::Var(vs[0]),
            app0(b.text),
        ],
        result_of(b, app1(b.list, row_map(b, sql_value))),
    )
}

fn seed_all(ctx: &mut InferCtx, b: &BuiltinTyCons, sql_value: TyConId, class: ClassId)
    requires
        can_seed(*old(ctx), 1),
    ensures
        seeding(*final(ctx)) == bind_seed(
            seeding(*old(ctx)),
            "all"@,
            1,
            all_method(*b, sql_value, class, fresh_vars(old(ctx).table().types.len(), 1)),
        ),
        only_seeded(*old(ctx), *final(ctx)),
{
    let vs = fresh_n(ctx, 1);
    let params = no_types();
    let params = with_type(params, Type::Var(vs[0]));
    let params = with_type(params, con0(b.text));
    assert(views(params@) =~= seq![
        Ty::Var(vs@[0]),
        app0(b.text),
    ]);
    let ret = result_type(b, con1(b.list, row_map_type(b, sql_value)));
    bind_method(ctx, "all", vs, 1, class, params, ret);
}

/// `selectRows`: `a -> Text -> Quote (e -> Bool) -> Result (List (Map Text
/// SqlValue)) Error where Adapter a`.
pub open spec fn select_rows_method(b: BuiltinTyCons, sql_value: TyConId, class: ClassId, vs: Seq<TyVid>) -> Poly {
    method(
        vs,
        1,
        class,
        seq![
            Ty::Var(vs[0]),
            app0(b.text),
            row_predicate(b, Ty::Var(vs[1])),
        ],
        result_of(b, app1(b.list, row_map(b, sql_value))),
    )
}

fn seed_select_rows(ctx: &mut InferCtx, b: &BuiltinTyCons, sql_value: TyConId, class: ClassId)
    requires
        can_seed(*old(ctx), 2),
    ensures
        seeding(*final(ctx)) == bind_seed(
            seeding(*old(ctx)),
            "selectRows"@,
            2,
            select_rows_method(*b, sql_value, class, fresh_vars(old(ctx).table().types.len(), 2)),
        ),
        only_seeded(*old(ctx), *final(ctx)),
{
    let vs = fresh_n(ctx, 2);
    let params = no_types();
    let params = with_type(params, Type::Var(vs[0]));
    let params = with_type(params, con0(b.text));
    let params = with_type(params, row_predicate_type(b, Type::Var(vs[1])));
    assert(views(params@) =~= seq![
        Ty::Var(vs@[0]),
        app0(b.text),
        row_predicate(*b, Ty::Var(vs@[1])),
    ]);
    let ret = result_type(b, con1(b.list, row_map_type(b, sql_value)));
    bind_method(ctx, "selectRows", vs, 1, class, params, ret);
}

/// `get`: `a -> Text -> Text -> SqlValue -> Result (Option (Map Text SqlValue))
/// Error where Adapter a`.
pub open spec fn get_method(b: BuiltinTyCons, sql_value: TyConId, class: ClassId, vs: Seq<TyVid>) -> Poly {
    method(
        vs,
        1,
        class,
        seq![
            Ty::Var(vs[0]),
            app0(b.text),
            app0(b.text),
            app0(sql_value),
        ],
        result_of(b, app1(b.option, row_map(b, sql_value))),
    )
}

fn seed_get(ctx: &mut InferCtx, b: &BuiltinTyCons, sql_value: TyConId, class: ClassId)
    requires
        can_seed(*old(ctx), 1),
    ensures
        seeding(*final(ctx)) == bind_seed(
            seeding(*old(ctx)),
            "get"@,
            1,
            get_method(*b, sql_value, class, fresh_vars(old(ctx).table().types.len(), 1)),
        ),
        only_seeded(*old(ctx), *final(ctx)),
{
    let vs = fresh_n(ctx, 1);
    let params = no_types();
    let params = with_type(params, Type::Var(vs[0]));
    let params = with_type(params, con0(b.text));
    let params = with_type(params, con0(b.text));
    let params = with_type(params, con0(sql_value));
    assert(views(params@) =~= seq![
        Ty::Var(vs@[0]),
        app0(b.text),
        app0(b.text),
        app0(sql_value),
    ]);
    let ret = result_type(b, con1(b.option, row_map_type(b, sql_value)));
    bind_method(ctx, "get", vs, 1, class, params, ret);
}

/// `delete` and `countWhere`: `a -> Text -> Quote (e -> Bool) -> Result Int Error
/// where Adapter a`.
pub open spec fn rows_counted_method(b: BuiltinTyCons, sql_value: TyConId, class: ClassId, vs: Seq<TyVid>) -> Poly {
    method(
        vs,
        1,
        class,
        seq![
            Ty::Var(vs[0]),
            app0(b.text),
            row_predicate(b, Ty::Var(vs[1])),
        ],
        result_of(b, app0(b.int)),
    )
}

fn seed_rows_counted(ctx: &mut InferCtx, name: &str, b: &BuiltinTyCons, sql_value: TyConId, class: ClassId)
    requires
        can_seed(*old(ctx), 2),
    ensures
        seeding(*final(ctx)) == bind_seed(
            seeding(*old(ctx)),
            name@,
            2,
            rows_counted_method(*b, sql_value, class, fresh_vars(old(ctx).table().types.len(), 2)),
        ),
        only_seeded(*old(ctx), *final(ctx)),
{
    let vs = fresh_n(ctx, 2);
    let params = no_types();
    let params = with_type(params, Type::Var(vs[0]));
    let params = with_type(params, con0(b.text));
    let params = with_type(params, row_predicate_type(b, Type::Var(vs[1])));
    assert(views(params@) =~= seq![
        Ty::Var(vs@[0]),
        app0(b.text),
        row_predicate(*b, Ty::Var(vs@[1])),
    ]);
    let ret = result_type(b, con0(b.int));
    bind_method(ctx, name, vs, 1, class, params, ret);
}

/// `updateRows`: `a -> Text -> Map Text SqlValue -> Quote (e -> Bool) -> Result
/// Int Error where Adapter a`.
pub open spec fn update_rows_method(b: BuiltinTyCons, sql_value: TyConId, class: ClassId, vs: Seq<TyVid>) -> Poly {
    method(
        vs,
        1,
        class,
        seq![
            Ty::Var(vs[0]),
            app0(b.text),
            row_map(b, sql_value),
            row_predicate(b, Ty::Var(vs[1])),
        ],
        result_of(b, app0(b.int)),
    )
}

fn seed_update_rows(ctx: &mut InferCtx, b: &BuiltinTyCons, sql_value: TyConId, class: ClassId)
    requires
        can_seed(*old(ctx), 2),
    ensures
        seeding(*final(ctx)) == bind_seed(
            seeding(*old(ctx)),
            "updateRows"@,
            2,
            update_rows_method(*b, sql_value, class, fresh_vars(old(ctx).table().types.len(), 2)),
        ),
        only_seeded(*old(ctx), *final(ctx)),
{
    let vs = fresh_n(ctx, 2);
    let params = no_types();
    let params = with_type(params, Type::Var(vs[0]));
    let params = with_type(params, con0(b.text));
    let params = with_type(params, row_map_type(b, sql_value));
    let params = with_type(params, row_predicate_type(b, Type::Var(vs[1])));
    assert(views(params@) =~= seq![
        Ty::Var(vs@[0]),
        app0(b.text),
        row_map(*b, sql_value),
        row_predicate(*b, Ty::Var(vs@[1])),
    ]);
    let ret = result_type(b, con0(b.int));
    bind_method(ctx, "updateRows", vs, 1, class, params, ret);
}

/// `fetch`: `a -> Text -> Quote (e -> Bool) -> List (Bool, Text) -> Int -> Int
/// -> Bool -> Result (List (Map Text SqlValue)) Error where Adapter a`.
pub open spec fn fetch_method(b: BuiltinTyCons, sql_value: TyConId, class: ClassId, vs: Seq<TyVid>) -> Poly {
    method(
        vs,
        1,
        class,
        seq![
            Ty::Var(vs[0]),
            app0(b.text),
            row_predicate(b, Ty::Var(vs[1])),
            order_keys(b),
            app0(b.int),
            app0(b.int),
            app0(b.bool),
        ],
        result_of(b, app1(b.list, row_map(b, sql_value))),
    )
}

fn seed_fetch(ctx: &mut InferCtx, b: &BuiltinTyCons, sql_value: TyConId, class: ClassId)
    requires
        can_seed(*old(ctx), 2),
    ensures
        seeding(*final(ctx)) == bind_seed(
            seeding(*old(ctx)),
            "fetch"@,
            2,
            fetch_method(*b, sql_value, class, fresh_vars(old(ctx).table().types.len(), 2)),
        ),
        only_seeded(*old(ctx), *final(ctx)),
{
    let vs = fresh_n(ctx, 2);
    let params = no_types();
    let params = with_type(params, Type::Var(vs[0]));
    let params = with_type(params, con0(b.text));
    let params = with_type(params, row_predicate_type(b, Type::Var(vs[1])));
    let params = with_type(params, order_keys_type(b));
    let params = with_type(params, con0(b.int));
    let params = with_type(params, con0(b.int));
    let params = with_type(params, con0(b.bool));
    assert(views(params@) =~= seq![
        Ty::Var(vs@[0]),
        app0(b.text),
        row_predicate(*b, Ty::Var(vs@[1])),
        order_keys(*b),
        app0(b.int),
        app0(b.int),
        app0(b.bool),
    ]);
    let ret = result_type(b, con1(b.list, row_map_type(b, sql_value)));
    bind_method(ctx, "fetch", vs, 1, class, params, ret);
}

/// `aggregate`: `a -> Text -> Quote (e -> Bool) -> Text -> Text -> Result
/// (Option SqlValue) Error where Adapter a`.
pub open spec fn aggregate_method(b: BuiltinTyCons, sql_value: TyConId, class: ClassId, vs: Seq<TyVid>) -> Poly {
    method(
        vs,
        1,
        class,
        seq![
            Ty::Var(vs[0]),
            app0(b.text),
            row_predicate(b, Ty::Var(vs[1])),
            app0(b.text),
            app0(b.text),
        ],
        result_of(b, app1(b.option, app0(sql_value))),
    )
}

fn seed_aggregate(ctx: &mut InferCtx, b: &BuiltinTyCons, sql_value: TyConId, class: ClassId)
    requires
        can_seed(*old(ctx), 2),
    ensures
        seeding(*final(ctx)) == bind_seed(
            seeding(*old(ctx)),
            "aggregate"@,
            2,
            aggregate_method(*b, sql_value, class, fresh_vars(old(ctx).table().types.len(), 2)),
        ),
        only_seeded(*old(ctx), *final(ctx)),
{
    let vs = fresh_n(ctx, 2);
    let params = no_types();
    let params = with_type(params, Type::Var(vs[0]));
    let params = with_type(params, con0(b.text));
    let params = with_type(params, row_predicate_type(b, Type::Var(vs[1])));
    let params = with_type(params, con0(b.text));
    let params = with_type(params, con0(b.text));
    assert(views(params@) =~= seq![
        Ty::Var(vs@[0]),
        app0(b.text),
        row_predicate(*b, Ty::Var(vs@[1])),
        app0(b.text),
        app0(b.text),
    ]);
    let ret = result_type(b, con1(b.option, con0(sql_value)));
    bind_method(ctx, "aggregate", vs, 1, class, params, ret);
}

/// `project`: `a -> Text -> Quote (e -> Bool) -> List (Bool, Text) -> Int -> Int
/// -> List (Text, Text) -> Bool -> Result (List (Map Text SqlValue)) Error
/// where Adapter a`.
pub open spec fn project_method(b: BuiltinTyCons, sql_value: TyConId, class: ClassId, vs: Seq<TyVid>) -> Poly {
    method(
        vs,
        1,
        class,
        seq![
            Ty::Var(vs[0]),
            app0(b.text),
            row_predicate(b, Ty::Var(vs[1])),
            order_keys(b),
            app0(b.int),
            app0(b.int),
            app1(b.list, Ty::Tuple(seq![app0(b.text), app0(b.text)])),
            app0(b.bool),
        ],
        result_of(b, app1(b.list, row_map(b, sql_value))),
    )
}

fn seed_project(ctx: &mut InferCtx, b: &BuiltinTyCons, sql_value: TyConId, class: ClassId)
    requires
        can_seed(*old(ctx), 2),
    ensures
        seeding(*final(ctx)) == bind_seed(
            seeding(*old(ctx)),
            "project"@,
            2,
            project_method(*b, sql_value, class, fresh_vars(old(ctx).table().types.len(), 2)),
        ),
        only_seeded(*old(ctx), *final(ctx)),
{
    let vs = fresh_n(ctx, 2);
    let params = no_types();
    let params = with_type(params, Type::Var(vs[0]));
    let params = with_type(params, con0(b.text));
    let params = with_type(params, row_predicate_type(b, Type::Var(vs[1])));
    let params = with_type(params, order_keys_type(b));
    let params = with_type(params, con0(b.int));
    let params = with_type(params, con0(b.int));
    let params = with_type(params, con1(b.list, tuple2(con0(b.text), con0(b.text))));
    let params = with_type(params, con0(b.bool));
    assert(views(params@) =~= seq![
        Ty::Var(vs@[0]),
        app0(b.text),
        row_predicate(*b, Ty::Var(vs@[1])),
        order_keys(*b),
        app0(b.int),
        app0(b.int),
        app1(b.list, Ty::Tuple(seq![app0(b.text), app0(b.text)])),
        app0(b.bool),
    ]);
    let ret = result_type(b, con1(b.list, row_map_type(b, sql_value)));
    bind_method(ctx, "project", vs, 1, class, params, ret);
}

/// `join`: the tables, the conditions, the order and the range of a join, to
/// a list of a pair of rows.
pub open spec fn join_method(b: BuiltinTyCons, sql_value: TyConId, class: ClassId, vs: Seq<TyVid>) -> Poly {
    method(
        vs,
        1,
        class,
        seq![
            Ty::Var(vs[0]),
            app0(b.text),
            app0(b.text),
            app1(b.quote, Ty::Var(vs[1])),
            app1(b.quote, Ty::Var(vs[2])),
            app1(b.quote, Ty::Var(vs[3])),
            join_order_keys(b),
            app0(b.int),
            app0(b.int),
        ],
        result_of(b, app1(b.list, Ty::Tuple(seq![row_map(b, sql_value), row_map(b, sql_value)]))),
    )
}

fn seed_join(ctx: &mut InferCtx, b: &BuiltinTyCons, sql_value: TyConId, class: ClassId)
    requires
        can_seed(*old(ctx), 4),
    ensures
        seeding(*final(ctx)) == bind_seed(
            seeding(*old(ctx)),
            "join"@,
            4,
            join_method(*b, sql_value, class, fresh_vars(old(ctx).table().types.len(), 4)),
        ),
        only_seeded(*old(ctx), *final(ctx)),
{
    let vs = fresh_n(ctx, 4);
    let params = no_types();
    let params = with_type(params, Type::Var(vs[0]));
    let params = with_type(params, con0(b.text));
    let params = with_type(params, con0(b.text));
    let params = with_type(params, con1(b.quote, Type::Var(vs[1])));
    let params = with_type(params, con1(b.quote, Type::Var(vs[2])));
    let params = with_type(params, con1(b.quote, Type::Var(vs[3])));
    let params = with_type(params, join_order_keys_type(b));
    let params = with_type(params, con0(b.int));
    let params = with_type(params, con0(b.int));
    assert(views(params@) =~= seq![
        Ty::Var(vs@[0]),
        app0(b.text),
        app0(b.text),
        app1(b.quote, Ty::Var(vs@[1])),
        app1(b.quote, Ty::Var(vs@[2])),
        app1(b.quote, Ty::Var(vs@[3])),
        join_order_keys(*b),
        app0(b.int),
        app0(b.int),
    ]);
    let ret = result_type(b, con1(b.list, tuple2(row_map_type(b, sql_value), row_map_type(b, sql_value))));
    bind_method(ctx, "join", vs, 1, class, params, ret);
}

/// `joinSelect`, `leftJoinSelect`, `rightJoinSelect` and `fullJoinSelect`: as the
/// join without a projection, with one, to a list of projected rows.
pub open spec fn join_select_method(b: BuiltinTyCons, sql_value: TyConId, class: ClassId, vs: Seq<TyVid>) -> Poly {
    method(
        vs,
        1,
        class,
        seq![
            Ty::Var(vs[0]),
            app0(b.text),
            app0(b.text),
            app1(b.quote, Ty::Var(vs[1])),
            app1(b.quote, Ty::Var(vs[2])),
            app1(b.quote, Ty::Var(vs[3])),
            join_order_keys(b),
            app0(b.int),
            app0(b.int),
            app1(b.quote, Ty::Var(vs[4])),
        ],
        result_of(b, app1(b.list, row_map(b, sql_value))),
    )
}

fn seed_join_select(ctx: &mut InferCtx, name: &str, b: &BuiltinTyCons, sql_value: TyConId, class: ClassId)
    requires
        can_seed(*old(ctx), 5),
    ensures
        seeding(*final(ctx)) == bind_seed(
            seeding(*old(ctx)),
            name@,
            5,
            join_select_method(*b, sql_value, class, fresh_vars(old(ctx).table().types.len(), 5)),
        ),
        only_seeded(*old(ctx), *final(ctx)),
{
    let vs = fresh_n(ctx, 5);
    let params = no_types();
    let params = with_type(params, Type::Var(vs[0]));
    let params = with_type(params, con0(b.text));
    let params = with_type(params, con0(b.text));
    let params = with_type(params, con1(b.quote, Type::Var(vs[1])));
    let params = with_type(params, con1(b.quote, Type::Var(vs[2])));
    let params = with_type(params, con1(b.quote, Type::Var(vs[3])));
    let params = with_type(params, join_order_keys_type(b));
    let params = with_type(params, con0(b.int));
    let params = with_type(params, con0(b.int));
    let params = with_type(params, con1(b.quote, Type::Var(vs[4])));
    assert(views(params@) =~= seq![
        Ty::Var(vs@[0]),
        app0(b.text),
        app0(b.text),
        app1(b.quote, Ty::Var(vs@[1])),
        app1(b.quote, Ty::Var(vs@[2])),
        app1(b.quote, Ty::Var(vs@[3])),
        join_order_keys(*b),
        app0(b.int),
        app0(b.int),
        app1(b.quote, Ty::Var(vs@[4])),
    ]);
    let ret = result_type(b, con1(b.list, row_map_type(b, sql_value)));
    bind_method(ctx, name, vs, 1, class, params, ret);
}

/// `leftJoin`: the tables, the conditions, the order and the range of a join, to
/// a list of a row and an optional one.
pub open spec fn left_join_method(b: BuiltinTyCons, sql_value: TyConId, class: ClassId, vs: Seq<TyVid>) -> Poly {
    method(
        vs,
        1,
        class,
        seq![
            Ty::Var(vs[0]),
            app0(b.text),
            app0(b.text),
            app1(b.quote, Ty::Var(vs[1])),
            app1(b.quote, Ty::Var(vs[2])),
            app1(b.quote, Ty::Var(vs[3])),
            join_order_keys(b),
            app0(b.int),
            app0(b.int),
        ],
        result_of(b, app1(b.list, Ty::Tuple(seq![row_map(b, sql_value), app1(b.option, row_map(b, sql_value))]))),
    )
}

fn seed_left_join(ctx: &mut InferCtx, b: &BuiltinTyCons, sql_value: TyConId, class: ClassId)
    requires
        can_seed(*old(ctx), 4),
    ensures
        seeding(*final(ctx)) == bind_seed(
            seeding(*old(ctx)),
            "leftJoin"@,
            4,
            left_join_method(*b, sql_value, class, fresh_vars(old(ctx).table().types.len(), 4)),
        ),
        only_seeded(*old(ctx), *final(ctx)),
{
    let vs = fresh_n(ctx, 4);
    let params = no_types();
    let params = with_type(params, Type::Var(vs[0]));
    let params = with_type(params, con0(b.text));
    let params = with_type(params, con0(b.text));
    let params = with_type(params, con1(b.quote, Type::Var(vs[1])));
    let params = with_type(params, con1(b.quote, Type::Var(vs[2])));
    let params = with_type(params, con1(b.quote, Type::Var(vs[3])));
    let params = with_type(params, join_order_keys_type(b));
    let params = with_type(params, con0(b.int));
    let params = with_type(params, con0(b.int));
    assert(views(params@) =~= seq![
        Ty::Var(vs@[0]),
        app0(b.text),
        app0(b.text),
        app1(b.quote, Ty::Var(vs@[1])),
        app1(b.quote, Ty::Var(vs@[2])),
        app1(b.quote, Ty::Var(vs@[3])),
        join_order_keys(*b),
        app0(b.int),
        app0(b.int),
    ]);
    let ret = result_type(b, con1(b.list, tuple2(row_map_type(b, sql_value), con1(b.option, row_map_type(b, sql_value)))));
    bind_method(ctx, "leftJoin", vs, 1, class, params, ret);
}

/// `rightJoin`: the tables, the conditions, the order and the range of a join, to
/// a list of an optional row and one.
pub open spec fn right_join_method(b: BuiltinTyCons, sql_value: TyConId, class: ClassId, vs: Seq<TyVid>) -> Poly {
    method(
        vs,
        1,
        class,
        seq![
            Ty::Var(vs[0]),
            app0(b.text),
            app0(b.text),
            app1(b.quote, Ty::Var(vs[1])),
            app1(b.quote, Ty::Var(vs[2])),
            app1(b.quote, Ty::Var(vs[3])),
            join_order_keys(b),
            app0(b.int),
            app0(b.int),
        ],
        result_of(b, app1(b.list, Ty::Tuple(seq![app1(b.option, row_map(b, sql_value)), row_map(b, sql_value)]))),
    )
}

fn seed_right_join(ctx: &mut InferCtx, b: &BuiltinTyCons, sql_value: TyConId, class: ClassId)
    requires
        can_seed(*old(ctx), 4),
    ensures
        seeding(*final(ctx)) == bind_seed(
            seeding(*old(ctx)),
            "rightJoin"@,
            4,
            right_join_method(*b, sql_value, class, fresh_vars(old(ctx).table().types.len(), 4)),
        ),
        only_seeded(*old(ctx), *final(ctx)),
{
    let vs = fresh_n(ctx, 4);
    let params = no_types();
    let params = with_type(params, Type::Var(vs[0]));
    let params = with_type(params, con0(b.text));
    let params = with_type(params, con0(b.text));
    let params = with_type(params, con1(b.quote, Type::Var(vs[1])));
    let params = with_type(params, con1(b.quote, Type::Var(vs[2])));
    let params = with_type(params, con1(b.quote, Type::Var(vs[3])));
    let params = with_type(params, join_order_keys_type(b));
    let params = with_type(params, con0(b.int));
    let params = with_type(params, con0(b.int));
    assert(views(params@) =~= seq![
        Ty::Var(vs@[0]),
        app0(b.text),
        app0(b.text),
        app1(b.quote, Ty::Var(vs@[1])),
        app1(b.quote, Ty::Var(vs@[2])),
        app1(b.quote, Ty::Var(vs@[3])),
        join_order_keys(*b),
        app0(b.int),
        app0(b.int),
    ]);
    let ret = result_type(b, con1(b.list, tuple2(con1(b.option, row_map_type(b, sql_value)), row_map_type(b, sql_value))));
    bind_method(ctx, "rightJoin", vs, 1, class, params, ret);
}

/// `fullJoin`: the tables, the conditions, the order and the range of a join, to
/// a list of two optional rows.
pub open spec fn full_join_method(b: BuiltinTyCons, sql_value: TyConId, class: ClassId, vs: Seq<TyVid>) -> Poly {
    method(
        vs,
        1,
        class,
        seq![
            Ty::Var(vs[0]),
            app0(b.text),
            app0(b.text),
            app1(b.quote, Ty::Var(vs[1])),
            app1(b.quote, Ty::Var(vs[2])),
            app1(b.quote, Ty::Var(vs[3])),
            join_order_keys(b),
            app0(b.int),
            app0(b.int),
        ],
        result_of(b, app1(b.list, Ty::Tuple(seq![app1(b.option, row_map(b, sql_value)), app1(b.option, row_map(b, sql_value))]))),
    )
}

fn seed_full_join(ctx: &mut InferCtx, b: &BuiltinTyCons, sql_value: TyConId, class: ClassId)
    requires
        can_seed(*old(ctx), 4),
    ensures
        seeding(*final(ctx)) == bind_seed(
            seeding(*old(ctx)),
            "fullJoin"@,
            4,
            full_join_method(*b, sql_value, class, fresh_vars(old(ctx).table().types.len(), 4)),
        ),
        only_seeded(*old(ctx), *final(ctx)),
{
    let vs = fresh_n(ctx, 4);
    let params = no_types();
    let params = with_type(params, Type::Var(vs[0]));
    let params = with_type(params, con0(b.text));
    let params = with_type(params, con0(b.text));
    let params = with_type(params, con1(b.quote, Type::Var(vs[1])));
    let params = with_type(params, con1(b.quote, Type::Var(vs[2])));
    let params = with_type(params, con1(b.quote, Type::Var(vs[3])));
    let params = with_type(params, join_order_keys_type(b));
    let params = with_type(params, con0(b.int));
    let params = with_type(params, con0(b.int));
    assert(views(params@) =~= seq![
        Ty::Var(vs@[0]),
        app0(b.text),
        app0(b.text),
        app1(b.quote, Ty::Var(vs@[1])),
        app1(b.quote, Ty::Var(vs@[2])),
        app1(b.quote, Ty::Var(vs@[3])),
        join_order_keys(*b),
        app0(b.int),
        app0(b.int),
    ]);
    let ret = result_type(b, con1(b.list, tuple2(con1(b.option, row_map_type(b, sql_value)), con1(b.option, row_map_type(b, sql_value)))));
    bind_method(ctx, "fullJoin", vs, 1, class, params, ret);
}

/// `aggregateJoin`, `aggregateLeftJoin`, `aggregateRightJoin` and
/// `aggregateFullJoin`: the tables and the conditions of a join, an aggregate,
/// its column and its side, to an optional value.
pub open spec fn aggregate_join_method(b: BuiltinTyCons, sql_value: TyConId, class: ClassId, vs: Seq<TyVid>) -> Poly {
    method(
        vs,
        1,
        class,
        seq![
            Ty::Var(vs[0]),
            app0(b.text),
            app0(b.text),
            app1(b.quote, Ty::Var(vs[1])),
            app1(b.quote, Ty::Var(vs[2])),
            app1(b.quote, Ty::Var(vs[3])),
            app0(b.text),
            app0(b.text),
            app0(b.bool),
        ],
        result_of(b, app1(b.option, app0(sql_value))),
    )
}

fn seed_aggregate_join(ctx: &mut InferCtx, name: &str, b: &BuiltinTyCons, sql_value: TyConId, class: ClassId)
    requires
        can_seed(*old(ctx), 4),
    ensures
        seeding(*final(ctx)) == bind_seed(
            seeding(*old(ctx)),
            name@,
            4,
            aggregate_join_method(*b, sql_value, class, fresh_vars(old(ctx).table().types.len(), 4)),
        ),
        only_seeded(*old(ctx), *final(ctx)),
{
    let vs = fresh_n(ctx, 4);
    let params = no_types();
    let params = with_type(params, Type::Var(vs[0]));
    let params = with_type(params, con0(b.text));
    let params = with_type(params, con0(b.text));
    let params = with_type(params, con1(b.quote, Type::Var(vs[1])));
    let params = with_type(params, con1(b.quote, Type::Var(vs[2])));
    let params = with_type(params, con1(b.quote, Type::Var(vs[3])));
    let params = with_type(params, con0(b.text));
    let params = with_type(params, con0(b.text));
    let params = with_type(params, con0(b.bool));
    assert(views(params@) =~= seq![
        Ty::Var(vs@[0]),
        app0(b.text),
        app0(b.text),
        app1(b.quote, Ty::Var(vs@[1])),
        app1(b.quote, Ty::Var(vs@[2])),
        app1(b.quote, Ty::Var(vs@[3])),
        app0(b.text),
        app0(b.text),
        app0(b.bool),
    ]);
    let ret = result_type(b, con1(b.option, con0(sql_value)));
    bind_method(ctx, name, vs, 1, class, params, ret);
}

/// What seeding the methods of `SqlType` binds.
pub open spec fn sql_type_seeds(
    b: BuiltinTyCons,
    sql_value: TyConId,
    class: ClassId,
    s: Seeding,
) -> Seeding {
    let s1 = bind_seed(
        s,
        "toSql"@,
        1,
        to_sql_method(b, sql_value, class, fresh_vars(s.vars, 1)),
    );
    let s2 = bind_seed(
        s1,
        "fromSql"@,
        1,
        from_sql_method(b, sql_value, class, fresh_vars(s1.vars, 1)),
    );
    s2
}

fn seed_sql_type(ctx: &mut InferCtx, b: &BuiltinTyCons, sql_value: TyConId, class: ClassId)
    requires
        can_seed(*old(ctx), 2),
    ensures
        seeding(*final(ctx)) == sql_type_seeds(*b, sql_value, class, seeding(*old(ctx))),
        only_seeded(*old(ctx), *final(ctx)),
{
    let ghost c0 = *ctx;
    seed_to_sql(ctx, b, sql_value, class);
    let ghost c1 = *ctx;
    seed_from_sql(ctx, b, sql_value, class);
    proof {
        seeded_twice(c0, c1, *ctx);
    }
}

/// What seeding the methods of `Row` binds.
pub open spec fn row_class_seeds(
    b: BuiltinTyCons,
    sql_value: TyConId,
    class: ClassId,
    s: Seeding,
) -> Seeding {
    let s1 = bind_seed(
        s,
        "fromRow"@,
        1,
        from_row_method(b, sql_value, class, fresh_vars(s.vars, 1)),
    );
    let s2 = bind_seed(
        s1,
        "toRow"@,
        1,
        to_row_method(b, sql_value, class, fresh_vars(s1.vars, 1)),
    );
    s2
}

fn seed_row_class(ctx: &mut InferCtx, b: &BuiltinTyCons, sql_value: TyConId, class: ClassId)
    requires
        can_seed(*old(ctx), 2),
    ensures
        seeding(*final(ctx)) == row_class_seeds(*b, sql_value, class, seeding(*old(ctx))),
        only_seeded(*old(ctx), *final(ctx)),
{
    let ghost c0 = *ctx;
    seed_from_row(ctx, b, sql_value, class);
    let ghost c1 = *ctx;
    seed_to_row(ctx, b, sql_value, class);
    proof {
        seeded_twice(c0, c1, *ctx);
    }
}

/// What seeding the methods of `Adapter` about one table binds.
pub open spec fn adapter_table_seeds(
    b: BuiltinTyCons,
    sql_value: TyConId,
    class: ClassId,
    s: Seeding,
) -> Seeding {
    let s1 = bind_seed(
        s,
        "appendRow"@,
        1,
        append_row_method(b, sql_value, class, fresh_vars(s.vars, 1)),
    );
    let s2 = bind_seed(
        s1,
        "all"@,
        1,
        all_method(b, sql_value, class, fresh_vars(s1.vars, 1)),
    );
    let s3 = bind_seed(
        s2,
        "selectRows"@,
        2,
        select_rows_method(b, sql_value, class, fresh_vars(s2.vars, 2)),
    );
    let s4 = bind_seed(
        s3,
        "get"@,
        1,
        get_method(b, sql_value, class, fresh_vars(s3.vars, 1)),
    );
    let s5 = bind_seed(
        s4,
        "delete"@,
        2,
        rows_counted_method(b, sql_value, class, fresh_vars(s4.vars, 2)),
    );
    let s6 = bind_seed(
        s5,
        "updateRows"@,
        2,
        update_rows_method(b, sql_value, class, fresh_vars(s5.vars, 2)),
    );
    let s7 = bind_seed(
        s6,
        "fetch"@,
        2,
        fetch_method(b, sql_value, class, fresh_vars(s6.vars, 2)),
    );
    let s8 = bind_seed(
        s7,
        "countWhere"@,
        2,
        rows_counted_method(b, sql_value, class, fresh_vars(s7.vars, 2)),
    );
    let s9 = bind_seed(
        s8,
        "aggregate"@,
        2,
        aggregate_method(b, sql_value, class, fresh_vars(s8.vars, 2)),
    );
    let s10 = bind_seed(
        s9,
        "project"@,
        2,
        project_method(b, sql_value, class, fresh_vars(s9.vars, 2)),
    );
    s10
}

fn seed_adapter_table(ctx: &mut InferCtx, b: &BuiltinTyCons, sql_value: TyConId, class: ClassId)
    requires
        can_seed(*old(ctx), 17),
    ensures
        seeding(*final(ctx)) == adapter_table_seeds(*b, sql_value, class, seeding(*old(ctx))),
        only_seeded(*old(ctx), *final(ctx)),
{
    let ghost c0 = *ctx;
    seed_append_row(ctx, b, sql_value, class);
    let ghost c1 = *ctx;
    seed_all(ctx, b, sql_value, class);
    proof {
        seeded_twice(c0, c1, *ctx);
    }
    let ghost c2 = *ctx;
    seed_select_rows(ctx, b, sql_value, class);
    proof {
        seeded_twice(c0, c2, *ctx);
    }
    let ghost c3 = *ctx;
    seed_get(ctx, b, sql_value, class);
    proof {
        seeded_twice(c0, c3, *ctx);
    }
    let ghost c4 = *ctx;
    seed_rows_counted(ctx, "delete", b, sql_value, class);
    proof {
        seeded_twice(c0, c4, *ctx);
    }
    let ghost c5 = *ctx;
    seed_update_rows(ctx, b, sql_value, class);
    proof {
        seeded_twice(c0, c5, *ctx);
    }
    let ghost c6 = *ctx;
    seed_fetch(ctx, b, sql_value, class);
    proof {
        seeded_twice(c0, c6, *ctx);
    }
    let ghost c7 = *ctx;
    seed_rows_counted(ctx, "countWhere", b, sql_value, class);
    proof {
        seeded_twice(c0, c7, *ctx);
    }
    let ghost c8 = *ctx;
    seed_aggregate(ctx, b, sql_value, class);
    proof {
        seeded_twice(c0, c8, *ctx);
    }
    let ghost c9 = *ctx;
    seed_project(ctx, b, sql_value, class);
    proof {
        seeded_twice(c0, c9, *ctx);
    }
}

/// What seeding the methods of `Adapter` about joins binds.
pub open spec fn adapter_join_seeds(
    b: BuiltinTyCons,
    sql_value: TyConId,
    class: ClassId,
    s: Seeding,
) -> Seeding {
    let s1 = bind_seed(
        s,
        "join"@,
        4,
        join_method(b, sql_value, class, fresh_vars(s.vars, 4)),
    );
    let s2 = bind_seed(
        s1,
        "joinSelect"@,
        5,
        join_select_method(b, sql_value, class, fresh_vars(s1.vars, 5)),
    );
    let s3 = bind_seed(
        s2,
        "leftJoin"@,
        4,
        left_join_method(b, sql_value, class, fresh_vars(s2.vars, 4)),
    );
    let s4 = bind_seed(
        s3,
        "leftJoinSelect"@,
        5,
        join_select_method(b, sql_value, class, fresh_vars(s3.vars, 5)),
    );
    let s5 = bind_seed(
        s4,
        "rightJoin"@,
        4,
        right_join_method(b, sql_value, class, fresh_vars(s4.vars, 4)),
    );
    let s6 = bind_seed(
        s5,
        "rightJoinSelect"@,
        5,
        join_select_method(b, sql_value, class, fresh_vars(s5.vars, 5)),
    );
    let s7 = bind_seed(
        s6,
        "fullJoin"@,
        4,
        full_join_method(b, sql_value, class, fresh_vars(s6.vars, 4)),
    );
    let s8 = bind_seed(
        s7,
        "fullJoinSelect"@,
        5,
        join_select_method(b, sql_value, class, fresh_vars(s7.vars, 5)),
    );
    let s9 = bind_seed(
        s8,
        "aggregateJoin"@,
        4,
        aggregate_join_method(b, sql_value, class, fresh_vars(s8.vars, 4)),
    );
    let s10 = bind_seed(
        s9,
        "aggregateLeftJoin"@,
        4,
        aggregate_join_method(b, sql_value, class, fresh_vars(s9.vars, 4)),
    );
    let s11 = bind_seed(
        s10,
        "aggregateRightJoin"@,
        4,
        aggregate_join_method(b, sql_value, class, fresh_vars(s10.vars, 4)),
    );
    let s12 = bind_seed(
        s11,
        "aggregateFullJoin"@,
        4,
        aggregate_join_method(b, sql_value, class, fresh_vars(s11.vars, 4)),
    );
    s12
}

fn seed_adapter_join(ctx: &mut InferCtx, b: &BuiltinTyCons, sql_value: TyConId, class: ClassId)
    requires
        can_seed(*old(ctx), 52),
    ensures
        seeding(*final(ctx)) == adapter_join_seeds(*b, sql_value, class, seeding(*old(ctx))),
        only_seeded(*old(ctx), *final(ctx)),
{
    let ghost c0 = *ctx;
    seed_join(ctx, b, sql_value, class);
    let ghost c1 = *ctx;
    seed_join_select(ctx, "joinSelect", b, sql_value, class);
    proof {
        seeded_twice(c0, c1, *ctx);
    }
    let ghost c2 = *ctx;
    seed_left_join(ctx, b, sql_value, class);
    proof {
        seeded_twice(c0, c2, *ctx);
    }
    let ghost c3 = *ctx;
    seed_join_select(ctx, "leftJoinSelect", b, sql_value, class);
    proof {
        seeded_twice(c0, c3, *ctx);
    }
    let ghost c4 = *ctx;
    seed_right_join(ctx, b, sql_value, class);
    proof {
        seeded_twice(c0, c4, *ctx);
    }
    let ghost c5 = *ctx;
    seed_join_select(ctx, "rightJoinSelect", b, sql_value, class);
    proof {
        seeded_twice(c0, c5, *ctx);
    }
    let ghost c6 = *ctx;
    seed_full_join(ctx, b, sql_value, class);
    proof {
        seeded_twice(c0, c6, *ctx);
    }
    let ghost c7 = *ctx;
    seed_join_select(ctx, "fullJoinSelect", b, sql_value, class);
    proof {
        seeded_twice(c0, c7, *ctx);
    }
    let ghost c8 = *ctx;
    seed_aggregate_join(ctx, "aggregateJoin", b, sql_value, class);
    proof {
        seeded_twice(c0, c8, *ctx);
    }
    let ghost c9 = *ctx;
    seed_aggregate_join(ctx, "aggregateLeftJoin", b, sql_value, class);
    proof {
        seeded_twice(c0, c9, *ctx);
    }
    let ghost c10 = *ctx;
    seed_aggregate_join(ctx, "aggregateRightJoin", b, sql_value, class);
    proof {
        seeded_twice(c0, c10, *ctx);
    }
    let ghost c11 = *ctx;
    seed_aggregate_join(ctx, "aggregateFullJoin", b, sql_value, class);
    proof {
        seeded_twice(c0, c11, *ctx);
    }
}

/// What seeding the database methods binds: nothing without the class
/// `SqlType`, and otherwise also the methods of `Row` and of `Adapter`, where
/// these classes exist.
pub open spec fn sql_codec_seeds(
    b: BuiltinTyCons,
    cs: Seq<ClassInfo>,
    sql_value: TyConId,
    s: Seeding,
) -> Seeding {
    match class_named(cs, "SqlType"@) {
        None => s,
        Some(class) => {
            let s1 = sql_type_seeds(b, sql_value, class, s);
            let s2 = match class_named(cs, "Row"@) {
                None => s1,
                Some(row) => row_class_seeds(b, sql_value, row, s1),
            };
            match class_named(cs, "Adapter"@) {
                None => s2,
                Some(adapter) => adapter_join_seeds(
                    b,
                    sql_value,
                    adapter,
                    adapter_table_seeds(b, sql_value, adapter, s2),
                ),
            }
        },
    }
}

/// Binds the methods of the database classes, as far as these exist.
pub fn seed_sql_codec_schemes(
    ctx: &mut InferCtx,
    b: &BuiltinTyCons,
    class_table: &ClassTable,
    sql_value: TyConId,
)
    requires
        can_seed(*old(ctx), 73),
    ensures
        seeding(*final(ctx)) == sql_codec_seeds(
            *b,
            class_table.classes@,
            sql_value,
            seeding(*old(ctx)),
        ),
        only_seeded(*old(ctx), *final(ctx)),
{
    let ghost c0 = *ctx;
    proof {
        seeded_none(*ctx);
    }
    let class = match class_table.id_by_name("SqlType") {
        Some(c) => c,
        None => {
            return;
        },
    };
    seed_sql_type(ctx, b, sql_value, class);
    let ghost c1 = *ctx;
    if let Some(row) = class_table.id_by_name("Row") {
        seed_row_class(ctx, b, sql_value, row);
        proof {
            seeded_twice(c0, c1, *ctx);
        }
    }
    let ghost c2 = *ctx;
    if let Some(adapter) = class_table.id_by_name("Adapter") {
        seed_adapter_table(ctx, b, sql_value, adapter);
        let ghost c3 = *ctx;
        proof {
            seeded_twice(c0, c2, c3);
        }
        seed_adapter_join(ctx, b, sql_value, adapter);
        proof {
            seeded_twice(c0, c3, *ctx);
        }
    }
}

} // verus!

use vstd::prelude::*;

use crate::render::{extendable, find_decl, join_shape, spine};
use crate::types::{Ty, TyConDecl, TyConId};

verus! {

/// The names of the joins that keep every row of what is to their left.
pub open spec fn keeps_left(name: Seq<char>) -> bool {
    name == "LeftJoin"@ || name == "LeftJoined"@ || name == "FullJoin"@ || name == "FullJoined"@
}

/// The names of the joins that keep every row of the table to their right.
pub open spec fn keeps_right(name: Seq<char>) -> bool {
    name == "RightJoin"@ || name == "RightJoined"@ || name == "FullJoin"@ || name == "FullJoined"@
}

/// The names of the joins of joins.
pub open spec fn joins_joins(name: Seq<char>) -> bool {
    name == "Joined"@ || name == "LeftJoined"@ || name == "RightJoined"@ || name == "FullJoined"@
}

/// A join that keeps all rows on one side may lack the other side: the table to
/// the right of a left join, everything to the left of a right join, and both of
/// a full join. No other name is that of a join.
pub proof fn joins_are_known_by_name(name: Seq<char>)
    ensures
        join_shape(name) is Some <==> keeps_left(name) || keeps_right(name) || joins_joins(name),
        join_shape(name) matches Some(s) ==> s.0 == keeps_left(name) && s.1 == keeps_right(name)
            && s.2 == joins_joins(name),
        join_shape("Query"@) is None,
{
    reveal_strlit("Joined");
    reveal_strlit("LeftJoin");
    reveal_strlit("LeftJoined");
    reveal_strlit("RightJoin");
    reveal_strlit("RightJoined");
    reveal_strlit("FullJoin");
    reveal_strlit("FullJoined");
    reveal_strlit("Query");
    assert("LeftJoin"@[0] == 'L' && "LeftJoined"@[0] == 'L');
    assert("RightJoin"@[0] == 'R' && "RightJoined"@[0] == 'R');
    assert("FullJoin"@[0] == 'F' && "FullJoined"@[0] == 'F');
    assert("Joined"@[0] == 'J' && "Query"@[0] == 'Q');
    assert("LeftJoin"@.len() == 8 && "LeftJoined"@.len() == 10);
    assert("RightJoin"@.len() == 9 && "RightJoined"@.len() == 11);
    assert("FullJoin"@.len() == 8 && "FullJoined"@.len() == 10);
}

proof fn all_optional(t: Ty, tycons: Seq<TyConDecl>, before: nat)
    ensures
        spine(t, tycons, true, before) is Some <==> spine(t, tycons, false, before) is Some,
        spine(t, tycons, false, before) matches Some(ts) ==> spine(
            t,
            tycons,
            true,
            before,
        )->0.len() == ts.len() && forall|i: int|
            0 <= i < ts.len() ==> (#[trigger] spine(t, tycons, true, before)->0[i]) == (
                ts[i].0,
                true,
            ),
    decreases t,
{
    if let Ty::Con(id, args) = t {
        if before < 16 && id.0 < tycons.len() && args.len() == 3 {
            all_optional(args[0], tycons, before);
        }
    }
}

/// The tables of a join are those of what it joins, and then its own. Its own may
/// be missing where the join keeps the left; those before may be missing where
/// they might before, or where the join keeps the right.
pub proof fn joins_span_their_tables(
    tycons: Seq<TyConDecl>,
    id: TyConId,
    from: Ty,
    table: Ty,
    on: Ty,
    name: Seq<char>,
)
    requires
        id.0 < tycons.len(),
        tycons[id.0 as int].name@ == name,
        keeps_left(name) || keeps_right(name) || joins_joins(name),
    ensures
        ({
            let t = Ty::Con(id, seq![from, table, on]);
            let inner = spine(from, tycons, false, 0);
            let whole = spine(t, tycons, false, 0);
            &&& whole is Some <==> inner is Some
            &&& inner matches Some(ts) ==> whole->0.len() == ts.len() + 1 && whole->0.last() == (
                table,
                keeps_left(name),
            ) && forall|i: int|
                0 <= i < ts.len() ==> (#[trigger] whole->0[i]) == (
                    ts[i].0,
                    ts[i].1 || keeps_right(name),
                )
        }),
{
    joins_are_known_by_name(name);
    all_optional(from, tycons, 0);
    let t = Ty::Con(id, seq![from, table, on]);
    let args = seq![from, table, on];
    assert(args[0] == from && args[1] == table);
    reveal_strlit("Query");
    assert(name != "Query"@);
    let s = join_shape(name)->0;
    let below = spine(from, tycons, s.1, 0);
    assert(spine(t, tycons, false, 0) == match below {
        None => None,
        Some(tables) => Some(tables.push((table, s.0))),
    });
}

/// A query spans the one table of its rows, and no other type spans any.
pub proof fn queries_span_their_rows(tycons: Seq<TyConDecl>, id: TyConId, args: Seq<Ty>)
    requires
        id.0 < tycons.len(),
    ensures
        tycons[id.0 as int].name@ == "Query"@ && args.len() > 0 ==> spine(
            Ty::Con(id, args),
            tycons,
            false,
            0,
        ) == Some(seq![(args[0], false)]),
        tycons[id.0 as int].name@ != "Query"@ && !keeps_left(tycons[id.0 as int].name@)
            && !keeps_right(tycons[id.0 as int].name@) && !joins_joins(
            tycons[id.0 as int].name@,
        ) ==> spine(Ty::Con(id, args), tycons, false, 0) is None,
{
    joins_are_known_by_name(tycons[id.0 as int].name@);
}

/// An instance can be attached to a type that is declared in the workspace, and
/// to no other.
pub proof fn declared_types_can_be_extended(
    tycons: Seq<TyConDecl>,
    id: TyConId,
    args: Seq<Ty>,
    i: int,
)
    requires
        0 <= i < tycons.len(),
        tycons[i].id == id,
        forall|j: int| 0 <= j < i ==> (#[trigger] tycons[j]).id != id,
    ensures
        extendable(Ty::Con(id, args), tycons) <==> tycons[i].def_module_raw is Some,
{
    declaration_is_found(tycons, id, i);
}

proof fn declaration_is_found(tycons: Seq<TyConDecl>, id: TyConId, i: int)
    requires
        0 <= i < tycons.len(),
        tycons[i].id == id,
        forall|j: int| 0 <= j < i ==> (#[trigger] tycons[j]).id != id,
    ensures
        find_decl(tycons, id) == Some(tycons[i]),
    decreases tycons.len(),
{
    if i > 0 {
        assert(tycons[0].id != id);
        let rest = tycons.skip(1);
        assert(rest[i - 1] == tycons[i]);
        assert forall|j: int| 0 <= j < i - 1 implies (#[trigger] rest[j]).id != id by {
            assert(rest[j] == tycons[j + 1]);
        }
        declaration_is_found(rest, id, i - 1);
    }
}

} // verus!

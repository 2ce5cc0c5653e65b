use vstd::prelude::*;

use crate::ctx::noted;
use crate::error::TypeError;
use crate::subst::occurs;
use crate::table::{look, resolve, resolve_idempotent, resolved_vars_open, solved, Table};
use crate::types::{Span, Ty, TyConDecl, TyConId, TyVid};
use crate::workspace::{names_of, settled_nodes, tagged, with_entries, ModuleId};

verus! {

/// A constructor is known under its name, and the last of those of one name is
/// meant. A name that none has is not known.
pub proof fn constructors_are_known_by_name(tycons: Seq<TyConDecl>, k: nat, name: Seq<char>)
    requires
        k <= tycons.len(),
    ensures
        forall|i: int|
            0 <= i < k && (#[trigger] tycons[i]).name@ == name && (forall|j: int|
                i < j < k ==> (#[trigger] tycons[j]).name@ != name) ==> names_of(
                tycons,
                k,
            ).dom().contains(name) && names_of(tycons, k)[name] == tycons[i].id,
        (forall|j: int| 0 <= j < k ==> (#[trigger] tycons[j]).name@ != name) ==> !names_of(
            tycons,
            k,
        ).dom().contains(name),
    decreases k,
{
    if k > 0 {
        constructors_are_known_by_name(tycons, (k - 1) as nat, name);
        assert(tycons[k - 1] == tycons[k - 1]);
    }
}

/// An entry is in the table under its name, and the last of those of one name is
/// meant. What is not among the entries stays as it was.
pub proof fn entries_are_known_by_name(
    m: Map<Seq<char>, TyConId>,
    entries: Seq<(String, TyConId)>,
    k: nat,
    name: Seq<char>,
)
    requires
        k <= entries.len(),
    ensures
        forall|i: int|
            0 <= i < k && (#[trigger] entries[i]).0@ == name && (forall|j: int|
                i < j < k ==> (#[trigger] entries[j]).0@ != name) ==> with_entries(
                m,
                entries,
                k,
            ).dom().contains(name) && with_entries(m, entries, k)[name] == entries[i].1,
        (forall|j: int| 0 <= j < k ==> (#[trigger] entries[j]).0@ != name) ==> (with_entries(
            m,
            entries,
            k,
        ).dom().contains(name) <==> m.dom().contains(name)) && with_entries(m, entries, k)[name]
            == m[name],
    decreases k,
{
    if k > 0 {
        entries_are_known_by_name(m, entries, (k - 1) as nat, name);
        assert(entries[k - 1] == entries[k - 1]);
    }
}

/// Each diagnostic of a module is listed once, in order, with the module that it
/// is about.
pub proof fn diagnostics_name_their_module(id: ModuleId, errors: Seq<TypeError>)
    ensures
        tagged(id, errors).len() == errors.len(),
        forall|i: int|
            0 <= i < errors.len() ==> (#[trigger] tagged(id, errors)[i]).0 == id && tagged(
                id,
                errors,
            )[i].1 == errors[i],
{
}

/// The type of an expression is noted under the expression's id, and the types of
/// other expressions stay as they are. An expression without an id is not noted.
pub proof fn types_are_noted(
    nodes: Seq<Option<Ty>>,
    ids: Map<(u32, u32), u32>,
    span: Span,
    t: Ty,
    id: u32,
)
    ensures
        !ids.dom().contains((span.start, span.end)) ==> noted(nodes, ids, span, t) == nodes,
        ids.dom().contains((span.start, span.end)) && ids[(span.start, span.end)] == id ==> {
            &&& id < noted(nodes, ids, span, t).len()
            &&& noted(nodes, ids, span, t)[id as int] == Some(t)
            &&& forall|k: int|
                0 <= k < nodes.len() && k != id ==> #[trigger] noted(nodes, ids, span, t)[k]
                    == nodes[k]
            &&& forall|k: int|
                nodes.len() <= k < noted(nodes, ids, span, t).len() && k != id ==> #[trigger] noted(
                    nodes,
                    ids,
                    span,
                    t,
                )[k] is None
        },
{
}

/// What a module hands out of the types of its expressions holds no variable that
/// is known to be something, and the expressions without a type stay without.
pub proof fn types_are_handed_out_settled(tb: Table, ts: Seq<Option<Ty>>, i: int, v: TyVid)
    requires
        solved(tb),
        0 <= i < ts.len(),
    ensures
        settled_nodes(tb, ts).len() == ts.len(),
        ts[i] is None <==> settled_nodes(tb, ts)[i] is None,
        ts[i] matches Some(Ty::Var(w)) ==> settled_nodes(tb, ts)[i] == Some(look(tb, w)),
        ts[i] is Some && occurs(v, settled_nodes(tb, ts)[i]->0) ==> look(tb, v) == Ty::Var(v) && (
        v.0 < tb.types.len() ==> tb.types[v.0 as int] is None),
        ts[i] matches Some(t) ==> (resolve(tb, t) == t ==> settled_nodes(tb, ts)[i] == Some(t)),
{
    if let Some(t) = ts[i] {
        resolve_idempotent(tb, t);
        if occurs(v, resolve(tb, t)) {
            resolved_vars_open(tb, resolve(tb, t), v);
        }
    }
}

} // verus!

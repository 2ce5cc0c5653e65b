use vstd::prelude::*;

use crate::names::{index_of, name_of, no_names, Names};
use crate::render::{
    declared_fields, join_shape, rendered, rendered_all, rendered_fields, rendered_tables, room,
    spine, type_text,
};
use crate::subst::{apply, apply_agree, apply_all, apply_fields, apply_identity, occurs, occurs_field};
use crate::types::{CapRow, CapVid, Ty, TyConDecl, TyVid};

verus! {

/// What a renaming puts in place of a variable.
pub open spec fn as_var(f: spec_fn(u32) -> u32) -> spec_fn(TyVid) -> Ty {
    |v: TyVid| Ty::Var(TyVid(f(v.0)))
}

/// Capability variables stay as they are.
pub open spec fn caps_kept() -> spec_fn(CapVid) -> CapRow {
    |c: CapVid| CapRow::Var(c)
}

/// A type with its variables renamed.
pub open spec fn renamed(t: Ty, f: spec_fn(u32) -> u32) -> Ty {
    apply(t, as_var(f), caps_kept())
}

/// Different variables get different names.
pub open spec fn keeps_apart(f: spec_fn(u32) -> u32) -> bool {
    forall|a: u32, b: u32| #[trigger] f(a) == #[trigger] f(b) ==> a == b
}

/// What has been handed out, with the variables renamed.
pub open spec fn names_renamed(n: Names, f: spec_fn(u32) -> u32) -> Names {
    Names { seen: seen_renamed(n.seen, f), ..n }
}

pub open spec fn seen_renamed(seen: Seq<(u32, nat)>, f: spec_fn(u32) -> u32) -> Seq<(u32, nat)> {
    seen.map_values(|p: (u32, nat)| (f(p.0), p.1))
}

/// The fields of the record types without a name mention no variable.
pub open spec fn anon_closed(tycons: Seq<TyConDecl>) -> bool {
    forall|i: int, v: TyVid|
        0 <= i < tycons.len() && tycons[i].is_anon && tycons[i].kind is Record
            ==> !#[trigger] occurs_field(v, declared_fields(tycons[i].kind->Record_0.fields@))
}

proof fn index_renamed(seen: Seq<(u32, nat)>, f: spec_fn(u32) -> u32, v: u32)
    requires
        keeps_apart(f),
    ensures
        index_of(seen_renamed(seen, f), f(v)) == index_of(seen, v),
    decreases seen.len(),
{
    if seen.len() > 0 {
        let after = seen_renamed(seen, f);
        assert(after[0] == (f(seen[0].0), seen[0].1));
        assert(after.skip(1) =~= seen_renamed(seen.skip(1), f));
        index_renamed(seen.skip(1), f, v);
    }
}

proof fn name_renamed(n: Names, f: spec_fn(u32) -> u32, v: u32)
    requires
        keeps_apart(f),
    ensures
        name_of(names_renamed(n, f), f(v)) == (
            name_of(n, v).0,
            names_renamed(name_of(n, v).1, f),
        ),
{
    index_renamed(n.seen, f, v);
    let after = name_of(n, v).1;
    assert(name_of(names_renamed(n, f), f(v)).1.seen =~= seen_renamed(after.seen, f));
}

/// Tables with their variables renamed.
pub open spec fn tables_renamed(ls: Seq<(Ty, bool)>, f: spec_fn(u32) -> u32) -> Seq<(Ty, bool)> {
    ls.map_values(|l: (Ty, bool)| (renamed(l.0, f), l.1))
}

proof fn spine_renamed(
    t: Ty,
    tycons: Seq<TyConDecl>,
    left_optional: bool,
    before: nat,
    f: spec_fn(u32) -> u32,
)
    ensures
        spine(renamed(t, f), tycons, left_optional, before) == match spine(
            t,
            tycons,
            left_optional,
            before,
        ) {
            Some(ls) => Some(tables_renamed(ls, f)),
            None => None,
        },
    decreases t,
{
    if let Ty::Con(id, args) = t {
        let all = apply_all(args, as_var(f), caps_kept());
        assert(renamed(t, f) == Ty::Con(id, all));
        if args.len() > 0 {
            assert(all[0] == renamed(args[0], f));
            assert(tables_renamed(seq![(args[0], left_optional)], f) =~= seq![
                (all[0], left_optional),
            ]);
        }
        if args.len() == 3 && id.0 < tycons.len() {
            assert(all[1] == renamed(args[1], f));
            if let Some((right, source, _)) = join_shape(tycons[id.0 as int].name@) {
                spine_renamed(args[0], tycons, left_optional || source, before, f);
                if let Some(ls) = spine(args[0], tycons, left_optional || source, before) {
                    let last = (args[1], right || left_optional);
                    assert(tables_renamed(ls.push(last), f) =~= tables_renamed(ls, f).push(
                        (all[1], last.1),
                    ));
                }
            }
        }
    }
}

/// A list of types that no variable occurs in stays as it is.
proof fn closed_fields_stay(fs: Seq<(Seq<char>, Ty)>, f: spec_fn(u32) -> u32)
    requires
        forall|v: TyVid| !#[trigger] occurs_field(v, fs),
    ensures
        apply_fields(fs, as_var(f), caps_kept()) == fs,
{
    let id = |v: TyVid| Ty::Var(v);
    assert forall|i: int| 0 <= i < fs.len() implies #[trigger] apply_fields(
        fs,
        as_var(f),
        caps_kept(),
    )[i] == fs[i] by {
        assert forall|v: TyVid| occurs(v, fs[i].1) implies #[trigger] as_var(f)(v) == id(v) by {
            assert(occurs_field(v, fs));
        }
        apply_agree(fs[i].1, as_var(f), caps_kept(), id, caps_kept());
        apply_identity(fs[i].1);
    }
    assert(apply_fields(fs, as_var(f), caps_kept()) =~= fs);
}

/// Renaming the variables of a type changes nothing of how it reads, and renames
/// what has been handed out.
proof fn text_renamed(
    t: Ty,
    tycons: Seq<TyConDecl>,
    depth: nat,
    n: Names,
    f: spec_fn(u32) -> u32,
)
    requires
        keeps_apart(f),
        anon_closed(tycons),
    ensures
        rendered(renamed(t, f), tycons, depth, names_renamed(n, f)) == (
            rendered(t, tycons, depth, n).0,
            names_renamed(rendered(t, tycons, depth, n).1, f),
        ),
    decreases room(depth), 0nat,
{
    if depth < 5 {
        match t {
            Ty::Con(id, args) => {
                if id.0 < tycons.len() {
                    let d = tycons[id.0 as int];
                    let tables = spine(t, tycons, false, 0);
                    let all = apply_all(args, as_var(f), caps_kept());
                    assert(renamed(t, f) == Ty::Con(id, all));
                    spine_renamed(t, tycons, false, 0, f);
                    if d.is_anon && d.kind is Record {
                        let fs = declared_fields(d.kind->Record_0.fields@);
                        closed_fields_stay(fs, f);
                        fields_text_renamed(fs, tycons, depth + 1, n, f);
                    } else if join_shape(d.name@) is Some && (join_shape(d.name@)->0).2
                        && args.len() == 3 && tables is Some {
                        tables_text_renamed(tables->0, tycons, depth + 1, n, f);
                        let mid = rendered_tables(tables->0, tycons, depth + 1, n).1;
                        assert(all[2] == renamed(args[2], f));
                        text_renamed(args[2], tycons, depth + 1, mid, f);
                    } else if args.len() > 0 {
                        all_text_renamed(args, tycons, depth + 1, n, f);
                    }
                }
            },
            Ty::Tuple(elems) => all_text_renamed(elems, tycons, depth + 1, n, f),
            Ty::Fn { params, ret, caps } => {
                all_text_renamed(params, tycons, depth + 1, n, f);
                let mid = rendered_all(params, tycons, depth + 1, n).1;
                text_renamed(*ret, tycons, depth + 1, mid, f);
            },
            Ty::Record { fields, tail } => fields_text_renamed(fields, tycons, depth + 1, n, f),
            Ty::Var(w) => name_renamed(n, f, w.0),
            _ => {},
        }
    }
}

proof fn all_text_renamed(
    ts: Seq<Ty>,
    tycons: Seq<TyConDecl>,
    depth: nat,
    n: Names,
    f: spec_fn(u32) -> u32,
)
    requires
        keeps_apart(f),
        anon_closed(tycons),
    ensures
        rendered_all(
            apply_all(ts, as_var(f), caps_kept()),
            tycons,
            depth,
            names_renamed(n, f),
        ) == (
            rendered_all(ts, tycons, depth, n).0,
            names_renamed(rendered_all(ts, tycons, depth, n).1, f),
        ),
    decreases room(depth), 1 + ts.len(),
{
    if ts.len() > 0 {
        let all = apply_all(ts, as_var(f), caps_kept());
        assert(all.drop_last() =~= apply_all(ts.drop_last(), as_var(f), caps_kept()));
        assert(all.last() == renamed(ts.last(), f));
        all_text_renamed(ts.drop_last(), tycons, depth, n, f);
        text_renamed(
            ts.last(),
            tycons,
            depth,
            rendered_all(ts.drop_last(), tycons, depth, n).1,
            f,
        );
    }
}

proof fn fields_text_renamed(
    fs: Seq<(Seq<char>, Ty)>,
    tycons: Seq<TyConDecl>,
    depth: nat,
    n: Names,
    f: spec_fn(u32) -> u32,
)
    requires
        keeps_apart(f),
        anon_closed(tycons),
    ensures
        rendered_fields(
            apply_fields(fs, as_var(f), caps_kept()),
            tycons,
            depth,
            names_renamed(n, f),
        ) == (
            rendered_fields(fs, tycons, depth, n).0,
            names_renamed(rendered_fields(fs, tycons, depth, n).1, f),
        ),
    decreases room(depth), 1 + fs.len(),
{
    if fs.len() > 0 {
        let all = apply_fields(fs, as_var(f), caps_kept());
        assert(all.drop_last() =~= apply_fields(fs.drop_last(), as_var(f), caps_kept()));
        assert(all.last() == (fs.last().0, renamed(fs.last().1, f)));
        fields_text_renamed(fs.drop_last(), tycons, depth, n, f);
        text_renamed(
            fs.last().1,
            tycons,
            depth,
            rendered_fields(fs.drop_last(), tycons, depth, n).1,
            f,
        );
    }
}

proof fn tables_text_renamed(
    ls: Seq<(Ty, bool)>,
    tycons: Seq<TyConDecl>,
    depth: nat,
    n: Names,
    f: spec_fn(u32) -> u32,
)
    requires
        keeps_apart(f),
        anon_closed(tycons),
    ensures
        rendered_tables(tables_renamed(ls, f), tycons, depth, names_renamed(n, f)) == (
            rendered_tables(ls, tycons, depth, n).0,
            names_renamed(rendered_tables(ls, tycons, depth, n).1, f),
        ),
    decreases room(depth), 1 + ls.len(),
{
    if ls.len() > 0 {
        let all = tables_renamed(ls, f);
        assert(all.drop_last() =~= tables_renamed(ls.drop_last(), f));
        assert(all.last() == (renamed(ls.last().0, f), ls.last().1));
        tables_text_renamed(ls.drop_last(), tycons, depth, n, f);
        text_renamed(
            ls.last().0,
            tycons,
            depth,
            rendered_tables(ls.drop_last(), tycons, depth, n).1,
            f,
        );
    }
}

/// How a type reads does not depend on which variables it is written with: the
/// text stays the same where they are renamed and none falls together with
/// another.
pub proof fn renaming_keeps_the_text(t: Ty, tycons: Seq<TyConDecl>, f: spec_fn(u32) -> u32)
    requires
        keeps_apart(f),
        anon_closed(tycons),
    ensures
        type_text(renamed(t, f), tycons) == type_text(t, tycons),
{
    let none = no_names(Seq::empty());
    assert(seen_renamed(none.seen, f) =~= none.seen);
    text_renamed(t, tycons, 0, none, f);
    let again = no_names(rendered(t, tycons, 0, none).1.rigids);
    assert(seen_renamed(again.seen, f) =~= again.seen);
    text_renamed(t, tycons, 0, again, f);
}

} // verus!

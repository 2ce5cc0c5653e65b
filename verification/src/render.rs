use vstd::prelude::*;

use crate::ctx::InferCtx;
use crate::diag::{diags, Diag};
use crate::error::TypeError;
use crate::names::{index_of, letter_stays, name_of, no_names, note_rigid, Names, VarNamer};
use crate::text::{decimal, digits, join, joined, same_text, texts};
use crate::types::{
    field_views, views, RecordField, RowTail, Span, Ty, TyConDecl, TyConId, TyConKind, Type,
};

verus! {

broadcast use crate::types::group_views;

/// For a join step: whether it leaves its right table optional, whether it
/// leaves everything to its left optional, and whether it is a composite.
pub open spec fn join_shape(name: Seq<char>) -> Option<(bool, bool, bool)> {
    if name == "Joined"@ {
        Some((false, false, true))
    } else if name == "LeftJoin"@ {
        Some((true, false, false))
    } else if name == "LeftJoined"@ {
        Some((true, false, true))
    } else if name == "RightJoin"@ {
        Some((false, true, false))
    } else if name == "RightJoined"@ {
        Some((false, true, true))
    } else if name == "FullJoin"@ {
        Some((true, true, false))
    } else if name == "FullJoined"@ {
        Some((true, true, true))
    } else {
        None
    }
}

/// Recognises the constructors that stand for one step of a table join.
pub fn join_family(name: &str) -> (r: Option<(bool, bool, bool)>)
    ensures
        r == join_shape(name@),
{
    if same_text(name, "Joined") {
        Some((false, false, true))
    } else if same_text(name, "LeftJoin") {
        Some((true, false, false))
    } else if same_text(name, "LeftJoined") {
        Some((true, false, true))
    } else if same_text(name, "RightJoin") {
        Some((false, true, false))
    } else if same_text(name, "RightJoined") {
        Some((false, true, true))
    } else if same_text(name, "FullJoin") {
        Some((true, true, false))
    } else if same_text(name, "FullJoined") {
        Some((true, true, true))
    } else {
        None
    }
}

/// The tables that a join spans, each with whether a row may lack it.
///
/// There is no answer unless the spine ends in a `Query` with an entity.
/// `before` is the number of tables that have been found already.
pub open spec fn spine(
    t: Ty,
    tycons: Seq<TyConDecl>,
    left_optional: bool,
    before: nat,
) -> Option<Seq<(Ty, bool)>>
    decreases t,
{
    match t {
        Ty::Con(id, args) => {
            if before >= 16 || id.0 >= tycons.len() {
                None
            } else if tycons[id.0 as int].name@ == "Query"@ {
                if args.len() == 0 {
                    None
                } else {
                    Some(seq![(args[0], left_optional)])
                }
            } else {
                match join_shape(tycons[id.0 as int].name@) {
                    None => None,
                    Some((right, source, _composite)) => if args.len() != 3 {
                        None
                    } else {
                        match spine(args[0], tycons, left_optional || source, before) {
                            None => None,
                            Some(tables) => Some(tables.push((args[1], right || left_optional))),
                        }
                    },
                }
            }
        },
        _ => None,
    }
}

/// What a list of borrowed types denotes.
pub open spec fn leaf_views(leaves: Seq<(&Type, bool)>) -> Seq<(Ty, bool)> {
    leaves.map_values(|l: (&Type, bool)| (l.0@, l.1))
}

/// Lists the tables that a join spans, innermost first, behind those in `out`.
/// Answers `false` where the type is no join that ends in a `Query`.
pub fn flatten_join_spine<'a>(
    ty: &'a Type,
    tycons: &Vec<TyConDecl>,
    left_optional: bool,
    out: &mut Vec<(&'a Type, bool)>,
) -> (r: bool)
    ensures
        r == (spine(ty@, tycons@, left_optional, old(out)@.len()) is Some),
        r ==> leaf_views(final(out)@) == leaf_views(old(out)@) + spine(
            ty@,
            tycons@,
            left_optional,
            old(out)@.len(),
        )->0,
    decreases ty,
{
    match ty {
        Type::Con(id, args) => {
            let at: usize = id.0 as usize;
            assert(ty@ == Ty::Con(*id, views(args@)));
            if out.len() >= 16 || at >= tycons.len() {
                return false;
            }
            let name = tycons[at].name.as_str();
            if same_text(name, "Query") {
                if args.len() == 0 {
                    return false;
                }
                out.push((&args[0], left_optional));
                assert(leaf_views(out@) =~= leaf_views(old(out)@) + seq![(
                    ty@->Con_1[0],
                    left_optional,
                )]);
                return true;
            }
            match join_family(name) {
                None => false,
                Some((right, source, _composite)) => {
                    if args.len() != 3 {
                        return false;
                    }
                    if !flatten_join_spine(&args[0], tycons, left_optional || source, out) {
                        return false;
                    }
                    let ghost mid = out@;
                    out.push((&args[1], right || left_optional));
                    assert(leaf_views(out@) =~= leaf_views(mid).push(
                        (ty@->Con_1[1], right || left_optional),
                    ));
                    assert(leaf_views(out@) =~= leaf_views(old(out)@) + spine(
                        ty@,
                        tycons@,
                        left_optional,
                        old(out)@.len(),
                    )->0);
                    true
                },
            }
        },
        _ => false,
    }
}

/// The labelled types of a record declaration.
pub open spec fn declared_fields(fs: Seq<RecordField>) -> Seq<(Seq<char>, Ty)> {
    fs.map_values(|f: RecordField| (f.name@, f.ty@))
}

/// How deep below `depth` rendering still goes.
pub open spec fn room(depth: nat) -> nat {
    if depth >= 5 {
        0
    } else {
        (5 - depth) as nat
    }
}

/// A table of a join: `Option` before one that a row may lack.
pub open spec fn table_text(rendered: Seq<char>, optional: bool) -> Seq<char> {
    if !optional {
        rendered
    } else if rendered.contains(' ') {
        "Option ("@ + rendered + ")"@
    } else {
        "Option "@ + rendered
    }
}

/// How a type reads at nesting depth `depth`, and the names after that.
pub open spec fn rendered(
    t: Ty,
    tycons: Seq<TyConDecl>,
    depth: nat,
    n: Names,
) -> (Seq<char>, Names)
    decreases room(depth), 0nat,
{
    if depth >= 5 {
        ("…"@, n)
    } else {
        match t {
            Ty::Con(id, args) => {
                if id.0 >= tycons.len() {
                    ("?"@ + digits(id.0 as nat), n)
                } else {
                    let d = tycons[id.0 as int];
                    let tables = spine(t, tycons, false, 0);
                    if d.is_anon && d.kind is Record {
                        let (parts, after) = rendered_fields(
                            declared_fields(d.kind->Record_0.fields@),
                            tycons,
                            depth + 1,
                            n,
                        );
                        ("{ "@ + joined(parts, ", "@) + " }"@, after)
                    } else if join_shape(d.name@) is Some && (join_shape(d.name@)->0).2 && args.len()
                        == 3 && tables is Some {
                        let (parts, mid) = rendered_tables(tables->0, tycons, depth + 1, n);
                        let (adapter, after) = rendered(args[2], tycons, depth + 1, mid);
                        ("Join ("@ + joined(parts, ", "@) + ") "@ + adapter, after)
                    } else if args.len() == 0 {
                        (d.name@, n)
                    } else {
                        let (parts, after) = rendered_all(args, tycons, depth + 1, n);
                        (d.name@ + " "@ + joined(parts, " "@), after)
                    }
                }
            },
            Ty::Tuple(elems) => {
                let (parts, after) = rendered_all(elems, tycons, depth + 1, n);
                ("("@ + joined(parts, ", "@) + ")"@, after)
            },
            Ty::Fn { params, ret, caps } => {
                let (parts, mid) = rendered_all(params, tycons, depth + 1, n);
                let (r, after) = rendered(*ret, tycons, depth + 1, mid);
                ("("@ + joined(parts, ", "@) + ") -> "@ + r, after)
            },
            Ty::Record { fields, tail } => {
                let (parts, after) = rendered_fields(fields, tycons, depth + 1, n);
                match tail {
                    RowTail::Open(_) => if fields.len() == 0 {
                        ("{ .. }"@, after)
                    } else {
                        ("{ "@ + joined(parts, ", "@) + ", .. }"@, after)
                    },
                    RowTail::Closed => if fields.len() == 0 {
                        ("{}"@, after)
                    } else {
                        ("{ "@ + joined(parts, ", "@) + " }"@, after)
                    },
                }
            },
            Ty::Var(v) => name_of(n, v.0),
            Ty::Rigid { id, name } => (name, note_rigid(n, name)),
            Ty::Alias { name, body } => if name.0 >= tycons.len() {
                ("?"@ + digits(name.0 as nat), n)
            } else {
                (tycons[name.0 as int].name@, n)
            },
            Ty::Error => ("Error"@, n),
        }
    }
}

/// How a list of types reads, from left to right.
pub open spec fn rendered_all(
    ts: Seq<Ty>,
    tycons: Seq<TyConDecl>,
    depth: nat,
    n: Names,
) -> (Seq<Seq<char>>, Names)
    decreases room(depth), 1 + ts.len(),
{
    if ts.len() == 0 {
        (Seq::empty(), n)
    } else {
        let (parts, mid) = rendered_all(ts.drop_last(), tycons, depth, n);
        let (last, after) = rendered(ts.last(), tycons, depth, mid);
        (parts.push(last), after)
    }
}

/// How a list of labelled types reads, from left to right.
pub open spec fn rendered_fields(
    fs: Seq<(Seq<char>, Ty)>,
    tycons: Seq<TyConDecl>,
    depth: nat,
    n: Names,
) -> (Seq<Seq<char>>, Names)
    decreases room(depth), 1 + fs.len(),
{
    if fs.len() == 0 {
        (Seq::empty(), n)
    } else {
        let (parts, mid) = rendered_fields(fs.drop_last(), tycons, depth, n);
        let (last, after) = rendered(fs.last().1, tycons, depth, mid);
        (parts.push(fs.last().0 + ": "@ + last), after)
    }
}

/// How the tables of a join read, from left to right.
pub open spec fn rendered_tables(
    ls: Seq<(Ty, bool)>,
    tycons: Seq<TyConDecl>,
    depth: nat,
    n: Names,
) -> (Seq<Seq<char>>, Names)
    decreases room(depth), 1 + ls.len(),
{
    if ls.len() == 0 {
        (Seq::empty(), n)
    } else {
        let (parts, mid) = rendered_tables(ls.drop_last(), tycons, depth, n);
        let (last, after) = rendered(ls.last().0, tycons, depth, mid);
        (parts.push(table_text(last, ls.last().1)), after)
    }
}

fn has_space(s: &str) -> (r: bool)
    ensures
        r == s@.contains(' '),
{
    let n: usize = s.unicode_len();
    let mut i: usize = 0;
    while i < n
        invariant
            n == s@.len(),
            i <= n,
            forall|k: int| 0 <= k < i ==> s@[k] != ' ',
        decreases n - i,
    {
        if s.get_char(i) == ' ' {
            return true;
        }
        i = i + 1;
    }
    false
}

fn render_all(ts: &Vec<Type>, tycons: &Vec<TyConDecl>, depth: u8, namer: &mut VarNamer) -> (r: Vec<
    String,
>)
    requires
        old(namer).wf(),
        depth <= 5,
    ensures
        final(namer).wf(),
        (texts(r@), final(namer)@) == rendered_all(views(ts@), tycons@, depth as nat, old(namer)@),
    decreases 5 - depth, 1nat,
{
    let mut out: Vec<String> = Vec::new();
    let mut i: usize = 0;
    let ghost all = views(ts@);
    assert(all.take(0) =~= Seq::empty());
    assert(texts(out@) =~= Seq::empty());
    while i < ts.len()
        invariant
            depth <= 5,
            i <= ts@.len(),
            all == views(ts@),
            namer.wf(),
            (texts(out@), namer@) == rendered_all(
                all.take(i as int),
                tycons@,
                depth as nat,
                old(namer)@,
            ),
        decreases ts@.len() - i,
    {
        let ghost before = out@;
        let p = render_at_depth(&ts[i], tycons, depth, namer);
        out.push(p);
        proof {
            let next = all.take(i + 1);
            assert(next.drop_last() =~= all.take(i as int));
            assert(texts(out@) =~= texts(before).push(p@));
        }
        i = i + 1;
    }
    assert(all.take(i as int) =~= all);
    out
}

fn render_labelled(
    label: &str,
    ty: &Type,
    tycons: &Vec<TyConDecl>,
    depth: u8,
    namer: &mut VarNamer,
) -> (r: String)
    requires
        old(namer).wf(),
        depth <= 5,
    ensures
        final(namer).wf(),
        r@ == label@ + ": "@ + rendered(ty@, tycons@, depth as nat, old(namer)@).0,
        final(namer)@ == rendered(ty@, tycons@, depth as nat, old(namer)@).1,
    decreases 5 - depth, 1nat,
{
    let mut s = label.to_owned();
    s.append(": ");
    let p = render_at_depth(ty, tycons, depth, namer);
    s.append(p.as_str());
    s
}

fn render_fields(
    fs: &Vec<(String, Type)>,
    tycons: &Vec<TyConDecl>,
    depth: u8,
    namer: &mut VarNamer,
) -> (r: Vec<String>)
    requires
        old(namer).wf(),
        depth <= 5,
    ensures
        final(namer).wf(),
        (texts(r@), final(namer)@) == rendered_fields(
            field_views(fs@),
            tycons@,
            depth as nat,
            old(namer)@,
        ),
    decreases 5 - depth, 2nat,
{
    let mut out: Vec<String> = Vec::new();
    let mut i: usize = 0;
    let ghost all = field_views(fs@);
    assert(all.take(0) =~= Seq::empty());
    assert(texts(out@) =~= Seq::empty());
    while i < fs.len()
        invariant
            depth <= 5,
            i <= fs@.len(),
            all == field_views(fs@),
            namer.wf(),
            (texts(out@), namer@) == rendered_fields(
                all.take(i as int),
                tycons@,
                depth as nat,
                old(namer)@,
            ),
        decreases fs@.len() - i,
    {
        let ghost before = out@;
        let p = render_labelled(fs[i].0.as_str(), &fs[i].1, tycons, depth, namer);
        out.push(p);
        proof {
            let next = all.take(i + 1);
            assert(next.drop_last() =~= all.take(i as int));
            assert(texts(out@) =~= texts(before).push(p@));
        }
        i = i + 1;
    }
    assert(all.take(i as int) =~= all);
    out
}

fn render_declared(
    fs: &Vec<RecordField>,
    tycons: &Vec<TyConDecl>,
    depth: u8,
    namer: &mut VarNamer,
) -> (r: Vec<String>)
    requires
        old(namer).wf(),
        depth <= 5,
    ensures
        final(namer).wf(),
        (texts(r@), final(namer)@) == rendered_fields(
            declared_fields(fs@),
            tycons@,
            depth as nat,
            old(namer)@,
        ),
    decreases 5 - depth, 2nat,
{
    let mut out: Vec<String> = Vec::new();
    let mut i: usize = 0;
    let ghost all = declared_fields(fs@);
    assert(all.take(0) =~= Seq::empty());
    assert(texts(out@) =~= Seq::empty());
    while i < fs.len()
        invariant
            depth <= 5,
            i <= fs@.len(),
            all == declared_fields(fs@),
            namer.wf(),
            (texts(out@), namer@) == rendered_fields(
                all.take(i as int),
                tycons@,
                depth as nat,
                old(namer)@,
            ),
        decreases fs@.len() - i,
    {
        let ghost before = out@;
        let p = render_labelled(fs[i].name.as_str(), &fs[i].ty, tycons, depth, namer);
        out.push(p);
        proof {
            let next = all.take(i + 1);
            assert(next.drop_last() =~= all.take(i as int));
            assert(texts(out@) =~= texts(before).push(p@));
        }
        i = i + 1;
    }
    assert(all.take(i as int) =~= all);
    out
}

fn render_tables(
    ls: &Vec<(&Type, bool)>,
    tycons: &Vec<TyConDecl>,
    depth: u8,
    namer: &mut VarNamer,
) -> (r: Vec<String>)
    requires
        old(namer).wf(),
        depth <= 5,
    ensures
        final(namer).wf(),
        (texts(r@), final(namer)@) == rendered_tables(
            leaf_views(ls@),
            tycons@,
            depth as nat,
            old(namer)@,
        ),
    decreases 5 - depth, 1nat,
{
    let mut out: Vec<String> = Vec::new();
    let mut i: usize = 0;
    let ghost all = leaf_views(ls@);
    assert(all.take(0) =~= Seq::empty());
    assert(texts(out@) =~= Seq::empty());
    while i < ls.len()
        invariant
            depth <= 5,
            i <= ls@.len(),
            all == leaf_views(ls@),
            namer.wf(),
            (texts(out@), namer@) == rendered_tables(
                all.take(i as int),
                tycons@,
                depth as nat,
                old(namer)@,
            ),
        decreases ls@.len() - i,
    {
        let ghost before = out@;
        let p = render_at_depth(ls[i].0, tycons, depth, namer);
        let text = if !ls[i].1 {
            p
        } else if has_space(p.as_str()) {
            let mut s = "Option (".to_owned();
            s.append(p.as_str());
            s.append(")");
            s
        } else {
            let mut s = "Option ".to_owned();
            s.append(p.as_str());
            s
        };
        out.push(text);
        proof {
            let next = all.take(i + 1);
            assert(next.drop_last() =~= all.take(i as int));
            assert(next.last() == (ls@[i as int].0@, ls@[i as int].1));
            assert(texts(out@) =~= texts(before).push(text@));
        }
        i = i + 1;
    }
    assert(all.take(i as int) =~= all);
    out
}

fn unknown_con(id: u32) -> (r: String)
    ensures
        r@ == "?"@ + digits(id as nat),
{
    let mut s = "?".to_owned();
    let n = decimal(id as u128);
    s.append(n.as_str());
    s
}

/// Renders a type at nesting depth `depth`; from depth five on it reads `…`.
pub fn render_at_depth(
    ty: &Type,
    tycons: &Vec<TyConDecl>,
    depth: u8,
    namer: &mut VarNamer,
) -> (r: String)
    requires
        old(namer).wf(),
    ensures
        final(namer).wf(),
        (r@, final(namer)@) == rendered(ty@, tycons@, depth as nat, old(namer)@),
    decreases 5 - depth, 0nat,
{
    if depth >= 5 {
        return "…".to_owned();
    }
    match ty {
        Type::Con(id, args) => {
            let at: usize = id.0 as usize;
            assert(ty@ == Ty::Con(*id, views(args@)));
            if at >= tycons.len() {
                return unknown_con(id.0);
            }
            let decl = &tycons[at];
            if decl.is_anon {
                if let TyConKind::Record(schema) = &decl.kind {
                    let parts = render_declared(&schema.fields, tycons, depth + 1, namer);
                    let mut s = "{ ".to_owned();
                    let body = join(&parts, ", ");
                    s.append(body.as_str());
                    s.append(" }");
                    return s;
                }
            }
            let composite = match join_family(decl.name.as_str()) {
                Some((_right, _source, c)) => c,
                None => false,
            };
            if composite && args.len() == 3 {
                let mut leaves: Vec<(&Type, bool)> = Vec::new();
                let ghost none = leaves@;
                if flatten_join_spine(ty, tycons, false, &mut leaves) {
                    proof {
                        assert(leaf_views(none) =~= Seq::empty());
                        assert(leaf_views(leaves@) =~= spine(ty@, tycons@, false, 0)->0);
                    }
                    let parts = render_tables(&leaves, tycons, depth + 1, namer);
                    let adapter = render_at_depth(&args[2], tycons, depth + 1, namer);
                    let mut s = "Join (".to_owned();
                    let body = join(&parts, ", ");
                    s.append(body.as_str());
                    s.append(") ");
                    s.append(adapter.as_str());
                    return s;
                }
            }
            if args.len() == 0 {
                decl.name.clone()
            } else {
                let parts = render_all(args, tycons, depth + 1, namer);
                let mut s = decl.name.clone();
                s.append(" ");
                let body = join(&parts, " ");
                s.append(body.as_str());
                s
            }
        },
        Type::Tuple(elems) => {
            let parts = render_all(elems, tycons, depth + 1, namer);
            let mut s = "(".to_owned();
            let body = join(&parts, ", ");
            s.append(body.as_str());
            s.append(")");
            s
        },
        Type::Fn { params, ret, caps: _ } => {
            let parts = render_all(params, tycons, depth + 1, namer);
            let r = render_at_depth(ret, tycons, depth + 1, namer);
            let mut s = "(".to_owned();
            let body = join(&parts, ", ");
            s.append(body.as_str());
            s.append(") -> ");
            s.append(r.as_str());
            s
        },
        Type::Record { fields, tail } => {
            let parts = render_fields(fields, tycons, depth + 1, namer);
            let body = join(&parts, ", ");
            match tail {
                RowTail::Open(_) => {
                    if fields.len() == 0 {
                        "{ .. }".to_owned()
                    } else {
                        let mut s = "{ ".to_owned();
                        s.append(body.as_str());
                        s.append(", .. }");
                        s
                    }
                },
                RowTail::Closed => {
                    if fields.len() == 0 {
                        "{}".to_owned()
                    } else {
                        let mut s = "{ ".to_owned();
                        s.append(body.as_str());
                        s.append(" }");
                        s
                    }
                },
            }
        },
        Type::Var(v) => namer.name(v.0),
        Type::Rigid { id: _, name } => namer.rigid(name.as_str()),
        Type::Alias { name, body: _ } => {
            let at: usize = name.0 as usize;
            if at >= tycons.len() {
                unknown_con(name.0)
            } else {
                tycons[at].name.clone()
            }
        },
        Type::Error => "Error".to_owned(),
    }
}

/// `r` is what `render` prints under a fresh namer or, where that met names of
/// the author's, what it prints with those names reserved.
pub open spec fn printed<T, F: Fn(VarNamer) -> (T, VarNamer)>(render: F, r: T) -> bool {
    exists|n: VarNamer, first: (T, VarNamer)|
        {
            &&& #[trigger] call_ensures(render, (n,), first)
            &&& n.wf()
            &&& n@ == no_names(Seq::empty())
            &&& if first.1@.rigids.len() == 0 {
                r == first.0
            } else {
                exists|m: VarNamer, second: (T, VarNamer)|
                    {
                        &&& #[trigger] call_ensures(render, (m,), second)
                        &&& m.wf()
                        &&& m@ == no_names(first.1@.rigids)
                        &&& r == second.0
                    }
            }
        }
}

/// Renders under one namer and, if that met names of the author's, renders
/// again with those names reserved, so that no letter reads like one of them.
pub fn render_reserving<T, F: Fn(VarNamer) -> (T, VarNamer)>(render: F) -> (r: T)
    requires
        forall|n: VarNamer| n.wf() ==> call_requires(render, (n,)),
    ensures
        printed(render, r),
{
    let start = VarNamer::new();
    let ghost g = start;
    let first = render(start);
    assert(call_ensures(render, (g,), first));
    if first.1.met_no_rigid() {
        return first.0;
    }
    let again = VarNamer::reserving(first.1.into_rigids());
    let ghost h = again;
    let second = render(again);
    assert(call_ensures(render, (h,), second));
    second.0
}

/// The outcome of printing under a fresh namer or, where that met names of the
/// author's, with those names reserved.
pub open spec fn reserving<T>(print: spec_fn(Names) -> (T, Names)) -> T {
    let first = print(no_names(Seq::empty()));
    if first.1.rigids.len() == 0 {
        first.0
    } else {
        print(no_names(first.1.rigids)).0
    }
}

/// How a type reads on its own.
pub open spec fn type_text(t: Ty, tycons: Seq<TyConDecl>) -> Seq<char> {
    reserving(|n: Names| rendered(t, tycons, 0, n))
}

/// How two types read under one namer.
pub open spec fn pair_text(a: Ty, b: Ty, tycons: Seq<TyConDecl>) -> (Seq<char>, Seq<char>) {
    reserving(
        |n: Names|
            {
                let first = rendered(a, tycons, 0, n);
                let second = rendered(b, tycons, 0, first.1);
                ((first.0, second.0), second.1)
            },
    )
}

/// Renders a type for a reader. Its variables read `a`, `b` and so on in the
/// order of their first appearance, clear of the author's own names.
#[must_use]
pub fn render_type_with(ty: &Type, tycons: &Vec<TyConDecl>) -> (r: String)
    ensures
        r@ == type_text(ty@, tycons@),
{
    let print = |n: VarNamer| -> (out: (String, VarNamer))
        requires
            n.wf(),
        ensures
            (out.0@, out.1@) == rendered(ty@, tycons@, 0, n@),
        {
            let mut n = n;
            let s = render_at_depth(ty, tycons, 0, &mut n);
            (s, n)
        };
    render_reserving(print)
}

/// Renders two types for a reader under one namer, so that a variable that
/// occurs in both reads as one letter.
#[must_use]
pub fn render_type_pair_with(expected: &Type, found: &Type, tycons: &Vec<TyConDecl>) -> (r: (
    String,
    String,
))
    ensures
        (r.0@, r.1@) == pair_text(expected@, found@, tycons@),
{
    let print = |n: VarNamer| -> (out: ((String, String), VarNamer))
        requires
            n.wf(),
        ensures
            ({
                let first = rendered(expected@, tycons@, 0, n@);
                let second = rendered(found@, tycons@, 0, first.1);
                (out.0).0@ == first.0 && (out.0).1@ == second.0 && out.1@ == second.1
            }),
        {
            let mut n = n;
            let e = render_at_depth(expected, tycons, 0, &mut n);
            let f = render_at_depth(found, tycons, 0, &mut n);
            ((e, f), n)
        };
    render_reserving(print)
}

/// Renders a variable and the type that it would have to occur inside.
#[must_use]
pub fn render_occurs_pair(var: &Type, ty: &Type, tycons: &Vec<TyConDecl>) -> (r: (String, String))
    ensures
        (r.0@, r.1@) == pair_text(var@, ty@, tycons@),
{
    render_type_pair_with(var, ty, tycons)
}

/// The first declaration with a given id.
pub open spec fn find_decl(tycons: Seq<TyConDecl>, id: TyConId) -> Option<TyConDecl>
    decreases tycons.len(),
{
    if tycons.len() == 0 {
        None
    } else if tycons[0].id == id {
        Some(tycons[0])
    } else {
        find_decl(tycons.skip(1), id)
    }
}

/// Whether the type of a constructor is declared in the reader's workspace.
pub open spec fn extendable_con(tycons: Seq<TyConDecl>, id: TyConId) -> bool {
    find_decl(tycons, id) matches Some(d) && d.def_module_raw is Some
}

/// Whether the reader can attach an instance to a type at all.
pub open spec fn extendable(t: Ty, tycons: Seq<TyConDecl>) -> bool {
    t matches Ty::Con(id, _) && extendable_con(tycons, id)
}

/// Whether the reader can attach an instance to a type at all: only a declared
/// type of their own workspace has a declaration to hang one on.
#[must_use]
pub fn user_can_extend(ty: &Type, tycons: &Vec<TyConDecl>) -> (r: bool)
    ensures
        r == extendable(ty@, tycons@),
{
    match ty {
        Type::Con(id, _) => user_can_extend_tycon(*id, tycons),
        _ => false,
    }
}

/// [`user_can_extend`] for a bare constructor.
#[must_use]
pub fn user_can_extend_tycon(id: TyConId, tycons: &Vec<TyConDecl>) -> (r: bool)
    ensures
        r == extendable_con(tycons@, id),
{
    let mut i: usize = 0;
    assert(tycons@.skip(0) =~= tycons@);
    while i < tycons.len()
        invariant
            i <= tycons@.len(),
            find_decl(tycons@, id) == find_decl(tycons@.skip(i as int), id),
        decreases tycons@.len() - i,
    {
        let ghost rest = tycons@.skip(i as int);
        assert(rest[0] == tycons@[i as int]);
        assert(rest.skip(1) =~= tycons@.skip(i + 1));
        if tycons[i].id.0 == id.0 {
            return tycons[i].def_module_raw.is_some();
        }
        i = i + 1;
    }
    false
}

/// What a reader can do about a missing instance.
pub open spec fn instance_hint(class_name: Seq<char>, ty_name: Seq<char>, extend: bool) -> Seq<char> {
    if extend {
        "add `deriving ("@ + class_name + ")` to `"@ + ty_name
            + "` where it is declared, or write `instance "@ + class_name + " "@ + ty_name + "`"@
    } else {
        "`"@ + ty_name
            + "` is declared outside your workspace: it takes no `deriving` clause of yours, and an `instance "@
            + class_name + " "@ + ty_name + "` here would be an orphan (T031)"@
    }
}

/// The hint of a missing-instance diagnostic, naming the class and the type.
#[must_use]
pub fn no_instance_hint(class_name: &str, ty_name: &str, extendable: bool) -> (r: String)
    ensures
        r@ == instance_hint(class_name@, ty_name@, extendable),
{
    if extendable {
        let mut s = "add `deriving (".to_owned();
        s.append(class_name);
        s.append(")` to `");
        s.append(ty_name);
        s.append("` where it is declared, or write `instance ");
        s.append(class_name);
        s.append(" ");
        s.append(ty_name);
        s.append("`");
        s
    } else {
        let mut s = "`".to_owned();
        s.append(ty_name);
        s.append(
            "` is declared outside your workspace: it takes no `deriving` clause of yours, and an `instance ",
        );
        s.append(class_name);
        s.append(" ");
        s.append(ty_name);
        s.append("` here would be an orphan (T031)");
        s
    }
}

/// Reports a defect of the compiler itself at a place. What comes back stands
/// for the type that could not be found, and gives rise to no further report.
pub fn emit_internal(ctx: &mut InferCtx, msg: String, span: Span) -> (r: Type)
    ensures
        r@ == Ty::Error,
        diags(final(ctx).errors@) == diags(old(ctx).errors@).push(
            Diag::Internal { detail: msg@, span },
        ),
        *final(ctx) == (InferCtx { errors: final(ctx).errors, ..*old(ctx) }),
{
    broadcast use crate::diag::diags_push;

    ctx.errors.push(TypeError::InternalTypeError { detail: msg, span });
    Type::Error
}

/// As [`emit_internal`], for a place that only a broken invariant leads to.
pub fn emit_internal_strict(ctx: &mut InferCtx, msg: String, span: Span) -> (r: Type)
    ensures
        r@ == Ty::Error,
        diags(final(ctx).errors@) == diags(old(ctx).errors@).push(
            Diag::Internal { detail: msg@, span },
        ),
        *final(ctx) == (InferCtx { errors: final(ctx).errors, ..*old(ctx) }),
{
    emit_internal(ctx, msg, span)
}

/// `v` has a letter, and the same one in both.
pub open spec fn same_letter(n: Names, m: Names, v: u32) -> bool {
    index_of(n.seen, v) is Some && index_of(m.seen, v) == index_of(n.seen, v)
}

/// Printing a type changes no letter that is out: what follows prints a
/// variable under the letter that it had before.
pub proof fn letters_stay(t: Ty, tycons: Seq<TyConDecl>, depth: nat, n: Names, v: u32)
    requires
        index_of(n.seen, v) is Some,
    ensures
        same_letter(n, rendered(t, tycons, depth, n).1, v),
    decreases room(depth), 0nat,
{
    if depth < 5 {
        match t {
            Ty::Con(id, args) => {
                if id.0 < tycons.len() {
                    let d = tycons[id.0 as int];
                    let tables = spine(t, tycons, false, 0);
                    if d.is_anon && d.kind is Record {
                        field_letters_stay(
                            declared_fields(d.kind->Record_0.fields@),
                            tycons,
                            depth + 1,
                            n,
                            v,
                        );
                    } else if join_shape(d.name@) is Some && (join_shape(d.name@)->0).2
                        && args.len() == 3 && tables is Some {
                        table_letters_stay(tables->0, tycons, depth + 1, n, v);
                        let mid = rendered_tables(tables->0, tycons, depth + 1, n).1;
                        letters_stay(args[2], tycons, depth + 1, mid, v);
                    } else if args.len() > 0 {
                        all_letters_stay(args, tycons, depth + 1, n, v);
                    }
                }
            },
            Ty::Tuple(elems) => all_letters_stay(elems, tycons, depth + 1, n, v),
            Ty::Fn { params, ret, caps } => {
                all_letters_stay(params, tycons, depth + 1, n, v);
                let mid = rendered_all(params, tycons, depth + 1, n).1;
                letters_stay(*ret, tycons, depth + 1, mid, v);
            },
            Ty::Record { fields, tail } => field_letters_stay(fields, tycons, depth + 1, n, v),
            Ty::Var(w) => letter_stays(n, w.0, v),
            _ => {},
        }
    }
}

proof fn all_letters_stay(ts: Seq<Ty>, tycons: Seq<TyConDecl>, depth: nat, n: Names, v: u32)
    requires
        index_of(n.seen, v) is Some,
    ensures
        same_letter(n, rendered_all(ts, tycons, depth, n).1, v),
    decreases room(depth), 1 + ts.len(),
{
    if ts.len() > 0 {
        all_letters_stay(ts.drop_last(), tycons, depth, n, v);
        letters_stay(
            ts.last(),
            tycons,
            depth,
            rendered_all(ts.drop_last(), tycons, depth, n).1,
            v,
        );
    }
}

proof fn field_letters_stay(
    fs: Seq<(Seq<char>, Ty)>,
    tycons: Seq<TyConDecl>,
    depth: nat,
    n: Names,
    v: u32,
)
    requires
        index_of(n.seen, v) is Some,
    ensures
        same_letter(n, rendered_fields(fs, tycons, depth, n).1, v),
    decreases room(depth), 1 + fs.len(),
{
    if fs.len() > 0 {
        field_letters_stay(fs.drop_last(), tycons, depth, n, v);
        letters_stay(
            fs.last().1,
            tycons,
            depth,
            rendered_fields(fs.drop_last(), tycons, depth, n).1,
            v,
        );
    }
}

proof fn table_letters_stay(
    ls: Seq<(Ty, bool)>,
    tycons: Seq<TyConDecl>,
    depth: nat,
    n: Names,
    v: u32,
)
    requires
        index_of(n.seen, v) is Some,
    ensures
        same_letter(n, rendered_tables(ls, tycons, depth, n).1, v),
    decreases room(depth), 1 + ls.len(),
{
    if ls.len() > 0 {
        table_letters_stay(ls.drop_last(), tycons, depth, n, v);
        letters_stay(
            ls.last().0,
            tycons,
            depth,
            rendered_tables(ls.drop_last(), tycons, depth, n).1,
            v,
        );
    }
}

} // verus!

use vstd::prelude::*;

use crate::ast::{ActorMember, Expr, MigrateDecl};
use crate::ctx::{in_scope, latest_binding_wins, InferCtx};
use crate::declaring::only_type;
use crate::diag::{diags, Diag};
use crate::migrate::{
    actor_hooks, body_fits, builtin_named, entry_shapes, field_types, histories, history_of,
    hook_checked, inside_hook, known, last_dot, named_type, outside_hook, past, past_type,
    shape_type, shape_types, text_position, version_of, Known, MigrateHistoryCtx, OwnerKind,
    TypeHistory, VersionEntry, VersionHistory,
};
use crate::rendered::read_shape;
use crate::rows::{ordered, ordering_keeps_fields};
use crate::scan::{blank_end, eats, is_word, word_end};
use crate::shapes::Shape;
use crate::table::resolve;
use crate::types::{BuiltinTyCons, Poly, RowTail, Span, Ty, TyVid, Type};
use crate::unify::{agrees, unified, unified_agree};

verus! {

/// The version that is found for an ordinal carries that ordinal and is one of
/// the history, and one is found where the history has it.
pub proof fn versions_carry_their_ordinal(es: Seq<VersionEntry>, ordinal: u32)
    ensures
        version_of(es, ordinal) is Some <==> exists|i: int|
            0 <= i < es.len() && (#[trigger] es[i]).ordinal == ordinal,
        version_of(es, ordinal) matches Some(e) ==> e.ordinal == ordinal && es.contains(e),
    decreases es.len(),
{
    if es.len() > 0 {
        let rest = es.skip(1);
        versions_carry_their_ordinal(rest, ordinal);
        if es[0].ordinal != ordinal {
            if exists|i: int| 0 <= i < es.len() && (#[trigger] es[i]).ordinal == ordinal {
                let i = choose|i: int| 0 <= i < es.len() && (#[trigger] es[i]).ordinal == ordinal;
                assert(rest[i - 1].ordinal == ordinal);
            }
            if let Some(e) = version_of(rest, ordinal) {
                let i = choose|i: int| 0 <= i < rest.len() && rest[i] == e;
                assert(es[i + 1] == e);
            }
        } else {
            assert(es[0].ordinal == ordinal);
        }
    }
}

/// The history that is found is that of the type's own name in its own module,
/// and one is found where there is one.
pub proof fn histories_are_found(hs: Seq<TypeHistory>, module: Seq<char>, name: Seq<char>)
    ensures
        history_of(hs, module, name) is Some <==> exists|i: int|
            0 <= i < hs.len() && (#[trigger] hs[i]).module@ == module && hs[i].name@ == name,
        history_of(hs, module, name) matches Some(h) ==> h.module@ == module && h.name@ == name
            && hs.contains(h),
    decreases hs.len(),
{
    if hs.len() > 0 {
        let rest = hs.skip(1);
        histories_are_found(rest, module, name);
        if hs[0].module@ == module && hs[0].name@ == name {
            assert(hs[0].module@ == module);
        } else {
            if exists|i: int|
                0 <= i < hs.len() && (#[trigger] hs[i]).module@ == module && hs[i].name@ == name {
                let i = choose|i: int|
                    0 <= i < hs.len() && (#[trigger] hs[i]).module@ == module && hs[i].name@
                        == name;
                assert(rest[i - 1].module@ == module);
            }
            if let Some(h) = history_of(rest, module, name) {
                let i = choose|i: int| 0 <= i < rest.len() && rest[i] == h;
                assert(hs[i + 1] == h);
            }
        }
    }
}

/// `e` is a version of a type with the given name and module, and with the given
/// ordinal.
pub open spec fn is_version(
    hs: Seq<TypeHistory>,
    module: Seq<char>,
    name: Seq<char>,
    ordinal: u32,
    e: VersionEntry,
) -> bool {
    e.ordinal == ordinal && exists|h: TypeHistory| #[trigger]
        hs.contains(h) && h.module@ == module && h.name@ == name && h.entries@.contains(e)
}

/// The version that a hook goes back to is one of its owner's, with the ordinal
/// that the hook names: records have theirs among the records, and actors among
/// the actors.
pub proof fn hooks_go_back_to_what_they_name(
    h: VersionHistory,
    kind: OwnerKind,
    module: Seq<char>,
    owner: Seq<char>,
    ordinal: u32,
)
    ensures
        past(histories(h, kind), module, owner, ordinal) matches Some(e) ==> is_version(
            if kind is Record {
                h.records@
            } else {
                h.actors@
            },
            module,
            owner,
            ordinal,
            e,
        ),
{
    let hs = histories(h, kind);
    histories_are_found(hs, module, owner);
    if let Some(x) = history_of(hs, module, owner) {
        versions_carry_their_ordinal(x.entries@, ordinal);
    }
}

/// The body of a hook was looked at with its parameter in scope under a type.
pub open spec fn looked_at_as<F: Fn(InferCtx, &Expr) -> (InferCtx, Type)>(
    infer: F,
    m: MigrateDecl,
    t: Ty,
) -> bool {
    exists|a: InferCtx, out: (InferCtx, Type)| #[trigger]
        call_ensures(infer, (a, &m.body), out) && (in_scope(a.env@, m.param.text@) matches Some(p)
            && only_type(p, t))
}

/// A hook that is not the first from its version is reported as a second one; one
/// from a version that its owner never had is reported as unknown; and the body
/// of any other is looked at with the parameter in scope under the type of the
/// version that the hook names.
pub proof fn hooks_are_checked_against_their_version<
    F: Fn(InferCtx, &Expr) -> (InferCtx, Type),
    C: Fn(InferCtx, &String, &Expr, Span) -> InferCtx,
>(
    infer: F,
    check_caps: C,
    b: BuiltinTyCons,
    hctx: MigrateHistoryCtx,
    c: InferCtx,
    d: InferCtx,
    module: Seq<char>,
    owner: Seq<char>,
    kind: OwnerKind,
    m: MigrateDecl,
    new_ty: Ty,
    again: bool,
)
    requires
        c.env@.len() > 0,
        hook_checked(infer, check_caps, b, hctx, c, d, module, owner, kind, m, new_ty, again),
    ensures
        again ==> diags(d.errors@) == diags(c.errors@).push(
            Diag::DuplicateMigration { name: owner, ordinal: m.old_type.version, span: m.span },
        ),
        !again && (forall|e: VersionEntry|
            !(#[trigger] is_first_version(
                histories(*hctx.history, kind),
                module,
                owner,
                m.old_type.version,
                e,
            ))) ==> diags(d.errors@) == diags(c.errors@).push(
            Diag::UnknownVersion {
                name: m.old_type.name.text@,
                ordinal: m.old_type.version,
                span: m.old_type.span,
            },
        ),
        !again ==> forall|e: VersionEntry| #[trigger]
            is_first_version(
                histories(*hctx.history, kind),
                module,
                owner,
                m.old_type.version,
                e,
            ) ==> exists|x: VersionEntry| #[trigger]
                is_version(
                    histories(*hctx.history, kind),
                    module,
                    owner,
                    m.old_type.version,
                    x,
                ) && looked_at_as(
                    infer,
                    m,
                    past_type(known(c, b, hctx), x, c.table().types.len()).0,
                ),
{
    let hs = histories(*hctx.history, kind);
    let ordinal = m.old_type.version;
    hooks_go_back_to_what_they_name(*hctx.history, kind, module, owner, ordinal);
    histories_are_found(hs, module, owner);
    if !again {
        match past(hs, module, owner, ordinal) {
            None => {
                assert forall|e: VersionEntry| !(#[trigger] is_first_version(
                    hs,
                    module,
                    owner,
                    ordinal,
                    e,
                )) by {
                    if is_first_version(hs, module, owner, ordinal, e) {
                        let h = history_of(hs, module, owner)->0;
                        versions_carry_their_ordinal(h.entries@, ordinal);
                        let i = choose|i: int| 0 <= i < h.entries@.len() && h.entries@[i] == e;
                        assert(h.entries@[i].ordinal == ordinal);
                    }
                }
            },
            Some(e) => {
                let old_ty = past_type(known(c, b, hctx), e, c.table().types.len());
                assert(body_fits(infer, check_caps, c, d, owner, m, old_ty, new_ty));
                let (a, out, z, name) = choose|
                    a: InferCtx,
                    out: (InferCtx, Type),
                    z: InferCtx,
                    name: String,
                |
                    #![trigger call_ensures(infer, (a, &m.body), out), call_ensures(check_caps, (z, &name, &m.body, m.span), d)]
                    {
                        &&& inside_hook(c, a, m.param.text@, old_ty.0, old_ty.1)
                        &&& call_ensures(infer, (a, &m.body), out)
                        &&& outside_hook(out.0, z, out.1@, new_ty)
                        &&& name@ == crate::migrate::hook_name(owner, m.old_type.version)
                        &&& call_ensures(check_caps, (z, &name, &m.body, m.span), d)
                    };
                let p = Poly {
                    vars: Seq::empty(),
                    cap_vars: Seq::empty(),
                    ty: old_ty.0,
                    constraints: Seq::empty(),
                };
                let other = m.param.text@.push('_');
                assert(other.len() == m.param.text@.len() + 1);
                latest_binding_wins(c.env@.push(Seq::empty()), m.param.text@, p, other);
                assert(is_version(hs, module, owner, ordinal, e));
                assert(call_ensures(infer, (a, &m.body), out));
                assert(looked_at_as(infer, m, old_ty.0));
                let h = history_of(hs, module, owner)->0;
                versions_carry_their_ordinal(h.entries@, ordinal);
                assert(is_first_version(hs, module, owner, ordinal, e));
            },
        }
    }
}

/// `e` is a version with an ordinal in the first history of a type.
pub open spec fn is_first_version(
    hs: Seq<TypeHistory>,
    module: Seq<char>,
    name: Seq<char>,
    ordinal: u32,
    e: VersionEntry,
) -> bool {
    e.ordinal == ordinal && (history_of(hs, module, name) matches Some(h) && h.entries@.contains(e))
}

/// The body of a hook has the owner's current type where nothing is reported.
pub proof fn hooks_give_the_current_type(z: InferCtx, d: InferCtx, body: Ty, new_ty: Ty)
    requires
        z.wf(),
        outside_hook(z, d, body, new_ty),
    ensures
        diags(d.errors@) == diags(z.errors@) ==> agrees(
            resolve(d.table(), body),
            resolve(d.table(), new_ty),
        ),
        resolve(z.table(), body) is Con && resolve(z.table(), new_ty) is Con && resolve(
            z.table(),
            body,
        )->Con_0 != resolve(z.table(), new_ty)->Con_0 ==> diags(d.errors@).len() == diags(
            z.errors@,
        ).len() + 1,
        d.env@ == z.env@.drop_last(),
{
    unified_agree(z.table(), body, new_ty);
    if unified(z.table(), body, new_ty).1 is Some {
        assert(diags(d.errors@).len() == diags(z.errors@).len() + 1);
    }
}

/// The hooks of an actor are its members that are hooks, each of them and no
/// others.
pub proof fn actors_have_their_hooks(members: Seq<ActorMember>, m: MigrateDecl)
    ensures
        actor_hooks(members).contains(m) <==> members.contains(ActorMember::Migrate(m)),
    decreases members.len(),
{
    if members.len() > 0 {
        let less = members.drop_last();
        actors_have_their_hooks(less, m);
        let hooks = actor_hooks(members);
        let before = actor_hooks(less);
        let x = ActorMember::Migrate(m);
        if members.contains(x) {
            let i = choose|i: int| 0 <= i < members.len() && members[i] == x;
            if i < less.len() {
                assert(less[i] == x);
                let k = choose|k: int| 0 <= k < before.len() && before[k] == m;
                assert(hooks[k] == m);
            } else {
                assert(hooks[before.len() as int] == m);
            }
        }
        if hooks.contains(m) {
            let k = choose|k: int| 0 <= k < hooks.len() && hooks[k] == m;
            if k < before.len() {
                assert(before[k] == m);
                let i = choose|i: int| 0 <= i < less.len() && less[i] == x;
                assert(members[i] == x);
            } else {
                assert(members[members.len() - 1] == x);
            }
        }
    }
}

/// The last dot of a name is the one behind which there is none.
pub proof fn last_dots_are_last(name: Seq<char>)
    ensures
        last_dot(name) is None <==> forall|i: int| 0 <= i < name.len() ==> #[trigger] name[i]
            != '.',
        last_dot(name) matches Some(p) ==> p < name.len() && name[p as int] == '.' && forall|i: int|
            p < i < name.len() ==> #[trigger] name[i] != '.',
    decreases name.len(),
{
    if name.len() > 0 {
        let less = name.drop_last();
        last_dots_are_last(less);
        if name.last() != '.' {
            if last_dot(less) is None {
                assert forall|i: int| 0 <= i < name.len() implies #[trigger] name[i] != '.' by {
                    if i < less.len() {
                        assert(less[i] != '.');
                    }
                }
            } else {
                let p = last_dot(less)->0 as int;
                assert(name[p] == less[p]);
                assert forall|i: int| p < i < name.len() implies #[trigger] name[i] != '.' by {
                    if i < less.len() {
                        assert(less[i] != '.');
                    }
                }
            }
        } else {
            assert(name[name.len() - 1] == '.');
        }
    }
}

/// A text is found at its first place in a list.
pub proof fn texts_are_placed(items: Seq<Seq<char>>, i: int)
    requires
        0 <= i < items.len(),
        forall|j: int| 0 <= j < i ==> #[trigger] items[j] != items[i],
    ensures
        text_position(items, items[i]) == Some(i as nat),
    decreases i,
{
    if i > 0 {
        assert(items[0] != items[i]);
        let rest = items.skip(1);
        assert(rest[i - 1] == items[i]);
        assert forall|j: int| 0 <= j < i - 1 implies #[trigger] rest[j] != rest[i - 1] by {
            assert(items[j + 1] != items[i]);
        }
        texts_are_placed(rest, i - 1);
    }
}

/// A name of the history that is no built-in one means, behind the full name of
/// a module, the type that the module has under the rest of the name, and without
/// a dot the type that the module at hand knows by it.
pub proof fn history_names_are_found(k: Known, module: int, bare: Seq<char>)
    requires
        forall|i: int| 0 <= i < bare.len() ==> #[trigger] bare[i] != '.',
        0 <= module < k.fqns.len(),
        k.fqns.len() == k.tables.len(),
        forall|j: int| 0 <= j < module ==> #[trigger] k.fqns[j] != k.fqns[module],
    ensures
        builtin_named(k.b, bare) is None ==> named_type(k, bare) == if k.names.dom().contains(
            bare,
        ) {
            Some(k.names[bare])
        } else {
            None
        },
        builtin_named(k.b, (k.fqns[module].push('.')) + bare) is None ==> named_type(
            k,
            k.fqns[module].push('.') + bare,
        ) == if k.tables[module].dom().contains(bare) {
            Some(k.tables[module][bare])
        } else {
            None
        },
{
    last_dots_are_last(bare);
    let fqn = k.fqns[module];
    let full = fqn.push('.') + bare;
    last_dots_are_last(full);
    let p = fqn.len() as int;
    assert(full[p] == '.');
    assert forall|i: int| p < i < full.len() implies #[trigger] full[i] != '.' by {
        assert(full[i] == bare[i - p - 1]);
    }
    assert(last_dot(full) == Some(p as nat)) by {
        let q = last_dot(full)->0 as int;
        if q > p {
            assert(full[q] != '.');
        }
        if q < p {
            assert(full[p] != '.');
        }
    }
    assert(full.take(p) =~= fqn);
    assert(full.skip(p + 1) =~= bare);
    texts_are_placed(k.fqns, module);
}

/// The built-in types go by their names.
pub proof fn builtin_names_are_known(b: BuiltinTyCons)
    ensures
        builtin_named(b, "Int"@) == Some(b.int),
        builtin_named(b, "Float"@) == Some(b.float),
        builtin_named(b, "Bool"@) == Some(b.bool),
        builtin_named(b, "Text"@) == Some(b.text),
        builtin_named(b, "Unit"@) == Some(b.unit),
        builtin_named(b, "List"@) == Some(b.list),
        builtin_named(b, "Map"@) == Some(b.map),
        builtin_named(b, "Option"@) == Some(b.option),
        builtin_named(b, "Result"@) == Some(b.result),
{
    reveal_strlit("Int");
    reveal_strlit("Float");
    reveal_strlit("Bool");
    reveal_strlit("Text");
    reveal_strlit("Unit");
    reveal_strlit("Timestamp");
    reveal_strlit("Decimal");
    reveal_strlit("Uuid");
    reveal_strlit("Bytes");
    reveal_strlit("Date");
    reveal_strlit("Time");
    reveal_strlit("List");
    reveal_strlit("Map");
    reveal_strlit("Set");
    reveal_strlit("Option");
    reveal_strlit("Result");
    reveal_strlit("Handle");
    assert("Float"@[0] == 'F' && "Bytes"@[0] == 'B' && "Int"@[0] == 'I' && "Map"@[0] == 'M'
        && "Set"@[0] == 'S');
    assert("Bool"@[0] == 'B' && "Text"@[0] == 'T' && "Text"@[1] == 'e' && "Time"@[1] == 'i'
        && "Unit"@[0] == 'U' && "Unit"@[1] == 'n' && "Uuid"@[1] == 'u' && "List"@[0] == 'L'
        && "Date"@[0] == 'D');
    assert("Option"@[0] == 'O' && "Result"@[0] == 'R' && "Handle"@[0] == 'H');
}

proof fn labels_kept(k: Known, fs: Seq<(Seq<char>, Shape)>, vars: nat, n: nat)
    requires
        n <= fs.len(),
    ensures
        field_types(k, fs, vars, n).0.len() == n,
        forall|i: int|
            0 <= i < n ==> (#[trigger] field_types(k, fs, vars, n).0[i]).0 == fs[i].0 && exists|
                v: nat,
            |
                field_types(k, fs, vars, n).0[i].1 == (#[trigger] shape_type(k, fs[i].1, v)).0,
    decreases n,
{
    if n > 0 {
        labels_kept(k, fs, vars, (n - 1) as nat);
        let (ts, v) = field_types(k, fs, vars, (n - 1) as nat);
        let out = field_types(k, fs, vars, n).0;
        assert forall|i: int| 0 <= i < n implies (#[trigger] out[i]).0 == fs[i].0 && exists|w: nat|
            out[i].1 == (#[trigger] shape_type(k, fs[i].1, w)).0 by {
            if i < n - 1 {
                assert(out[i] == ts[i]);
            } else {
                assert(out[i].1 == shape_type(k, fs[i].1, v).0);
            }
        }
    }
}

/// A field has a label and the type that a shape says.
pub open spec fn is_field(k: Known, f: (Seq<char>, Ty), label: Seq<char>, sh: Shape) -> bool {
    f.0 == label && exists|v: nat| f.1 == (#[trigger] shape_type(k, sh, v)).0
}

/// One of some fields has a label and the type that a shape says.
pub open spec fn has_field(
    k: Known,
    fields: Seq<(Seq<char>, Ty)>,
    label: Seq<char>,
    sh: Shape,
) -> bool {
    exists|j: int| 0 <= j < fields.len() && #[trigger] is_field(k, fields[j], label, sh)
}

/// The type of a version is a closed record that has a field for each of the
/// version's, with the type that the version's text says, and no other field.
pub proof fn versions_have_their_fields(k: Known, e: VersionEntry, vars: nat)
    ensures
        past_type(k, e, vars).0 matches Ty::Record { fields, tail } && tail == RowTail::Closed
            && fields.len() == e.shape@.len() && (forall|i: int|
            0 <= i < e.shape@.len() ==> has_field(
                k,
                fields,
                (#[trigger] e.shape@[i]).0@,
                read_shape(e.shape@[i].1@),
            )),
{
    broadcast use vstd::seq_lib::group_to_multiset_ensures;

    let shapes = entry_shapes(e.shape@);
    labels_kept(k, shapes, vars, shapes.len());
    let fs = field_types(k, shapes, vars, shapes.len()).0;
    ordering_keeps_fields(fs);
    let out = ordered(fs);
    assert(out.len() == fs.len()) by {
        assert(out.to_multiset().len() == fs.to_multiset().len());
    }
    assert forall|i: int| 0 <= i < e.shape@.len() implies has_field(
        k,
        out,
        (#[trigger] e.shape@[i]).0@,
        read_shape(e.shape@[i].1@),
    ) by {
        assert(fs[i].0 == shapes[i].0);
        let v = choose|v: nat| fs[i].1 == (#[trigger] shape_type(k, shapes[i].1, v)).0;
        assert(fs.contains(fs[i]));
        assert(fs.to_multiset().count(fs[i]) > 0);
        assert(out.contains(fs[i]));
        let j = choose|j: int| 0 <= j < out.len() && out[j] == fs[i];
        assert(out[j].1 == shape_type(k, read_shape(e.shape@[i].1@), v).0);
        assert(is_field(k, out[j], e.shape@[i].0@, read_shape(e.shape@[i].1@)));
    }
}

/// A shape with a name that is known is the type of that name, with as many
/// arguments; one that is not known is a new variable, and so is a hole. A
/// function stays a function, and a tuple a tuple.
pub proof fn shapes_have_their_types(k: Known, sh: Shape, vars: nat)
    ensures
        sh matches Shape::Named { name, args } ==> match named_type(k, name) {
            Some(id) => shape_type(k, sh, vars).0 matches Ty::Con(c, ts) && c == id && ts.len()
                == args.len(),
            None => shape_type(k, sh, vars).0 is Var,
        },
        sh is Hole ==> shape_type(k, sh, vars) == (Ty::Var(TyVid(vars as u32)), vars + 1),
        sh matches Shape::Tuple(elems) ==> (shape_type(k, sh, vars).0 matches Ty::Tuple(ts)
            && ts.len() == elems.len()),
        sh matches Shape::Fn { params, ret } ==> (shape_type(k, sh, vars).0 matches Ty::Fn {
            params: ts,
            ret: _,
            caps: _,
        } && ts.len() == params.len()),
{
    match sh {
        Shape::Named { name: _, args } => counted(k, args, vars, args.len()),
        Shape::Tuple(elems) => counted(k, elems, vars, elems.len()),
        Shape::Fn { params, ret: _ } => counted(k, params, vars, params.len()),
        _ => {},
    }
}

proof fn counted(k: Known, shs: Seq<Shape>, vars: nat, n: nat)
    requires
        n <= shs.len(),
    ensures
        shape_types(k, shs, vars, n).0.len() == n,
    decreases n,
{
    if n > 0 {
        counted(k, shs, vars, (n - 1) as nat);
    }
}

proof fn whole_word(s: Seq<char>, i: nat)
    requires
        i <= s.len(),
        forall|j: int| 0 <= j < s.len() ==> is_word(#[trigger] s[j]),
    ensures
        word_end(s, i) == s.len(),
    decreases s.len() - i,
{
    if i < s.len() {
        assert(is_word(s[i as int]));
        whole_word(s, i + 1);
    }
}

/// A text of the history that is a plain name is the type of that name, without
/// arguments.
pub proof fn plain_names_are_read(s: Seq<char>)
    requires
        s.len() > 0,
        s[0] != '_',
        forall|j: int| 0 <= j < s.len() ==> is_word(#[trigger] s[j]),
    ensures
        read_shape(s) == (Shape::Named { name: s, args: Seq::empty() }),
{
    assert(is_word(s[0]));
    whole_word(s, 0);
    assert(blank_end(s, 0) == 0);
    assert(blank_end(s, s.len()) == s.len());
    assert(s.subrange(0, s.len() as int) =~= s);
    assert(!eats(s, s.len(), '('));
    assert(!eats(s, s.len(), '<'));
}

} // verus!

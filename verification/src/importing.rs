use vstd::prelude::*;

use crate::ctx::{in_scope, with_binding};
use crate::handling::bindings_are_seen;
use crate::prelude::{prelude_tycon, prelude_value};
use crate::setup::{entry, receiver, rows_types, with_imported, with_schemes, TypeNames};
use crate::stdlib_env::{
    ctor_of, has_alias, signature_of, with_effective, with_exports, with_import, with_module,
    with_prelude, Binding, EffectiveBinding, ImportResolution, ImportTarget, Scopes, Stdlib,
    StdlibCtor, StdlibSignature,
};
use crate::types::{BuiltinTyCons, CapRow, CapabilitySet, Poly, Scheme, Ty, TyConId, TyVid};

verus! {

/// The signature of an export is the first that is declared of the module and
/// the name together.
pub proof fn signatures_are_found(
    ss: Seq<StdlibSignature>,
    module: u32,
    name: Seq<char>,
    i: int,
)
    requires
        0 <= i < ss.len(),
        ss[i].module == module && ss[i].name@ == name,
        forall|j: int| 0 <= j < i ==> (#[trigger] ss[j]).module != module || ss[j].name@ != name,
    ensures
        signature_of(ss, module, name) == Some(ss[i].scheme@),
    decreases ss.len(),
{
    if i > 0 {
        assert(ss[0].module != module || ss[0].name@ != name);
        let rest = ss.skip(1);
        assert(rest[i - 1] == ss[i]);
        assert forall|j: int| 0 <= j < i - 1 implies (#[trigger] rest[j]).module != module
            || rest[j].name@ != name by {
            assert(rest[j] == ss[j + 1]);
        }
        signatures_are_found(rest, module, name, i - 1);
    }
}

/// An export that has no signature has none.
pub proof fn missing_signatures_are_not_found(
    ss: Seq<StdlibSignature>,
    module: u32,
    name: Seq<char>,
)
    requires
        forall|j: int|
            0 <= j < ss.len() ==> (#[trigger] ss[j]).module != module || ss[j].name@ != name,
    ensures
        signature_of(ss, module, name) is None,
    decreases ss.len(),
{
    if ss.len() > 0 {
        assert(ss[0].module != module || ss[0].name@ != name);
        let rest = ss.skip(1);
        assert forall|j: int| 0 <= j < rest.len() implies (#[trigger] rest[j]).module != module
            || rest[j].name@ != name by {
            assert(rest[j] == ss[j + 1]);
        }
        missing_signatures_are_not_found(rest, module, name);
    }
}

/// The scheme of a constructor is the first of its name.
pub proof fn constructors_are_found(cs: Seq<StdlibCtor>, name: Seq<char>, i: int)
    requires
        0 <= i < cs.len(),
        cs[i].name@ == name,
        forall|j: int| 0 <= j < i ==> (#[trigger] cs[j]).name@ != name,
    ensures
        ctor_of(cs, name) == Some(cs[i].scheme@),
    decreases cs.len(),
{
    if i > 0 {
        assert(cs[0].name@ != name);
        let rest = cs.skip(1);
        assert(rest[i - 1] == cs[i]);
        assert forall|j: int| 0 <= j < i - 1 implies (#[trigger] rest[j]).name@ != name by {
            assert(rest[j] == cs[j + 1]);
        }
        constructors_are_found(rest, name, i - 1);
    }
}

proof fn dotted_apart(alias: Seq<char>, a: Seq<char>, b: Seq<char>)
    requires
        alias + "."@ + a == alias + "."@ + b,
    ensures
        a == b,
{
    let n = alias.len() + "."@.len();
    let x = alias + "."@ + a;
    let y = alias + "."@ + b;
    assert(x.skip(n as int) =~= a);
    assert(y.skip(n as int) =~= b);
}

proof fn exports_in_scope(
    env: Scopes,
    lib: Stdlib,
    module: u32,
    exports: Seq<String>,
    alias: Seq<char>,
    k: nat,
    name: Seq<char>,
)
    requires
        env.len() > 0,
        k <= exports.len(),
    ensures
        with_exports(env, lib, module, exports, alias, k).len() == env.len(),
        forall|i: int|
            0 <= i < k && name == alias + "."@ + (#[trigger] exports[i])@ && signature_of(
                lib.signatures@,
                module,
                exports[i]@,
            ) is Some ==> in_scope(with_exports(env, lib, module, exports, alias, k), name)
                == signature_of(lib.signatures@, module, exports[i]@),
        (forall|i: int| 0 <= i < k ==> name != alias + "."@ + (#[trigger] exports[i])@) ==> in_scope(
            with_exports(env, lib, module, exports, alias, k),
            name,
        ) == in_scope(env, name),
    decreases k,
{
    if k > 0 {
        exports_in_scope(env, lib, module, exports, alias, (k - 1) as nat, name);
        let before = with_exports(env, lib, module, exports, alias, (k - 1) as nat);
        let after = with_exports(env, lib, module, exports, alias, k);
        let own = exports[k - 1]@;
        if let Some(p) = signature_of(lib.signatures@, module, own) {
            bindings_are_seen(before, alias + "."@ + own, p, name);
        }
        assert forall|i: int|
            0 <= i < k && name == alias + "."@ + (#[trigger] exports[i])@ && signature_of(
                lib.signatures@,
                module,
                exports[i]@,
            ) is Some implies in_scope(after, name) == signature_of(
            lib.signatures@,
            module,
            exports[i]@,
        ) by {
            if alias + "."@ + own == name {
                dotted_apart(alias, own, exports[i]@);
            }
        }
    }
}

/// A module that is imported under an alias has each of its exports in scope
/// behind the alias and a dot, under the signature of that export. Other names
/// stay what they are.
pub proof fn exports_are_seen_behind_the_alias(
    env: Scopes,
    lib: Stdlib,
    module: u32,
    alias: Seq<char>,
    name: Seq<char>,
)
    requires
        env.len() > 0,
        module < lib.modules@.len(),
    ensures
        with_module(env, lib, module, alias).len() == env.len(),
        forall|i: int|
            0 <= i < lib.modules@[module as int].exports@.len() && name == alias + "."@ + (
            #[trigger] lib.modules@[module as int].exports@[i])@ && signature_of(
                lib.signatures@,
                module,
                lib.modules@[module as int].exports@[i]@,
            ) is Some ==> in_scope(with_module(env, lib, module, alias), name) == signature_of(
                lib.signatures@,
                module,
                lib.modules@[module as int].exports@[i]@,
            ),
        (forall|i: int|
            0 <= i < lib.modules@[module as int].exports@.len() ==> name != alias + "."@ + (
            #[trigger] lib.modules@[module as int].exports@[i])@) ==> in_scope(
            with_module(env, lib, module, alias),
            name,
        ) == in_scope(env, name),
{
    let exports = lib.modules@[module as int].exports@;
    exports_in_scope(env, lib, module, exports, alias, exports.len(), name);
}

/// One export that is imported by name is in scope under its local name, with the
/// signature of the export in its own module, or else as the constructor of that
/// name. Other names stay what they are.
pub proof fn imported_names_are_seen(env: Scopes, lib: Stdlib, eb: EffectiveBinding)
    requires
        env.len() > 0,
    ensures
        eb.binding matches Binding::StdlibSymbol { module, name } ==> ({
            let after = with_effective(env, lib, eb);
            let own = signature_of(lib.signatures@, module, name@);
            let ctor = ctor_of(lib.ctors@, name@);
            &&& own is Some ==> in_scope(after, eb.local_name@) == own
            &&& own is None && ctor is Some ==> in_scope(after, eb.local_name@) == ctor
            &&& own is None && ctor is None ==> after == env
        }),
        eb.binding is Other ==> with_effective(env, lib, eb) == env,
        eb.binding is StdlibSymbol ==> forall|x: Seq<char>|
            x != eb.local_name@ ==> #[trigger] in_scope(with_effective(env, lib, eb), x)
                == in_scope(env, x),
{
    if let Binding::StdlibSymbol { module, name } = eb.binding {
        assert forall|x: Seq<char>| x != eb.local_name@ implies #[trigger] in_scope(
            with_effective(env, lib, eb),
            x,
        ) == in_scope(env, x) by {
            if let Some(p) = signature_of(lib.signatures@, module, name@) {
                bindings_are_seen(env, eb.local_name@, p, x);
            } else if let Some(p) = ctor_of(lib.ctors@, name@) {
                bindings_are_seen(env, eb.local_name@, p, x);
            }
        }
        if let Some(p) = signature_of(lib.signatures@, module, name@) {
            bindings_are_seen(env, eb.local_name@, p, eb.local_name@);
        } else if let Some(p) = ctor_of(lib.ctors@, name@) {
            bindings_are_seen(env, eb.local_name@, p, eb.local_name@);
        }
    }
}

/// An import that brings no names but an alias brings the exports of its module
/// behind the alias; an import of another module brings nothing.
pub proof fn imports_bring_their_module(
    env: Scopes,
    lib: Stdlib,
    import: ImportResolution,
    i: int,
)
    requires
        env.len() > 0,
    ensures
        import.target is Other ==> with_import(env, lib, import) == env,
        import.effective_bindings@.len() == 0 ==> match (import.target, import.alias) {
            (ImportTarget::Stdlib(module), Some(alias)) => module < lib.modules@.len() && 0 <= i
                < lib.modules@[module as int].exports@.len() && signature_of(
                lib.signatures@,
                module,
                lib.modules@[module as int].exports@[i]@,
            ) is Some ==> in_scope(
                with_import(env, lib, import),
                alias@ + "."@ + lib.modules@[module as int].exports@[i]@,
            ) == signature_of(
                lib.signatures@,
                module,
                lib.modules@[module as int].exports@[i]@,
            ),
            _ => with_import(env, lib, import) == env,
        },
{
    if let ImportTarget::Stdlib(module) = import.target {
        if let Some(alias) = import.alias {
            if module < lib.modules@.len() && 0 <= i
                < lib.modules@[module as int].exports@.len() {
                let e = lib.modules@[module as int].exports@[i]@;
                exports_are_seen_behind_the_alias(
                    env,
                    lib,
                    module,
                    alias@,
                    alias@ + "."@ + e,
                );
            }
        }
        assert(import.effective_bindings@.len() == 0 ==> !has_alias(import.effective_bindings@));
    }
}

/// `Some` and `Ok` wrap a value of the first variable, `Err` one of the second,
/// and `None` takes nothing; what they give is the option of the first variable,
/// or the result over both.
pub proof fn constructors_everywhere(env: Scopes, b: BuiltinTyCons)
    requires
        env.len() > 0,
    ensures
        ({
            let after = with_prelude(env, b);
            let a = Ty::Var(TyVid(0));
            let e = Ty::Var(TyVid(1));
            let option = Ty::Con(b.option, seq![a]);
            let result = Ty::Con(b.result, seq![a, e]);
            &&& in_scope(after, "Some"@) matches Some(p) && p.vars == seq![TyVid(0)] && gives(
                p,
                seq![a],
                option,
            )
            &&& in_scope(after, "None"@) matches Some(p) && p.vars == seq![TyVid(0)] && gives(
                p,
                Seq::empty(),
                option,
            )
            &&& in_scope(after, "Ok"@) matches Some(p) && p.vars == seq![TyVid(0), TyVid(1)]
                && gives(p, seq![a], result)
            &&& in_scope(after, "Err"@) matches Some(p) && p.vars == seq![TyVid(0), TyVid(1)]
                && gives(p, seq![e], result)
        }),
        forall|x: Seq<char>|
            x != "Some"@ && x != "None"@ && x != "Ok"@ && x != "Err"@ ==> #[trigger] in_scope(
                with_prelude(env, b),
                x,
            ) == in_scope(env, x),
{
    prelude_names();
    let p1 = prelude_value(b, "Some"@)->0;
    let p2 = prelude_value(b, "None"@)->0;
    let p3 = prelude_value(b, "Ok"@)->0;
    let p4 = prelude_value(b, "Err"@)->0;
    let e1 = with_binding(env, "Some"@, p1);
    let e2 = with_binding(e1, "None"@, p2);
    let e3 = with_binding(e2, "Ok"@, p3);
    assert forall|x: Seq<char>| #[trigger]
        in_scope(with_prelude(env, b), x) == if x == "Err"@ {
            Some(p4)
        } else if x == "Ok"@ {
            Some(p3)
        } else if x == "None"@ {
            Some(p2)
        } else if x == "Some"@ {
            Some(p1)
        } else {
            in_scope(env, x)
        } by {
        bindings_are_seen(env, "Some"@, p1, x);
        bindings_are_seen(e1, "None"@, p2, x);
        bindings_are_seen(e2, "Ok"@, p3, x);
        bindings_are_seen(e3, "Err"@, p4, x);
    }
}

/// A scheme of a function that needs no capability.
pub open spec fn gives(p: Poly, from: Seq<Ty>, to: Ty) -> bool {
    p.constraints.len() == 0 && p.cap_vars.len() == 0 && (p.ty matches Ty::Fn { params, ret, caps }
        && params == from && *ret == to && caps == CapRow::Concrete(CapabilitySet(0)))
}

proof fn prelude_names()
    ensures
        "Some"@ != "None"@,
        "Some"@ != "Ok"@,
        "Some"@ != "Err"@,
        "None"@ != "Ok"@,
        "None"@ != "Err"@,
        "Ok"@ != "Err"@,
{
    reveal_strlit("Some");
    reveal_strlit("None");
    reveal_strlit("Ok");
    reveal_strlit("Err");
    assert("Some"@[0] == 'S' && "None"@[0] == 'N' && "Ok"@[0] == 'O' && "Err"@[0] == 'E');
}

/// The types that are in scope everywhere are those of their names.
pub proof fn types_everywhere(b: BuiltinTyCons)
    ensures
        prelude_tycon(b, "Int"@) == Some(b.int),
        prelude_tycon(b, "Float"@) == Some(b.float),
        prelude_tycon(b, "Bool"@) == Some(b.bool),
        prelude_tycon(b, "Text"@) == Some(b.text),
        prelude_tycon(b, "List"@) == Some(b.list),
        prelude_tycon(b, "Map"@) == Some(b.map),
        prelude_tycon(b, "Set"@) == Some(b.set),
        prelude_tycon(b, "Option"@) == Some(b.option),
        prelude_tycon(b, "Result"@) == Some(b.result),
{
    reveal_strlit("Int");
    reveal_strlit("Float");
    reveal_strlit("Bool");
    reveal_strlit("Text");
    reveal_strlit("List");
    reveal_strlit("Map");
    reveal_strlit("Set");
    reveal_strlit("Option");
    reveal_strlit("Result");
    assert("Int"@[0] == 'I' && "Float"@[0] == 'F' && "Bool"@[0] == 'B' && "Text"@[0] == 'T'
        && "List"@[0] == 'L' && "Map"@[0] == 'M' && "Set"@[0] == 'S' && "Option"@[0] == 'O'
        && "Result"@[0] == 'R');
}

/// An imported type is known under its name where the module has none of that
/// name itself: the first that was imported. Nothing else is known.
pub proof fn imported_types_are_known(
    names: Map<Seq<char>, TyConId>,
    imported: Seq<(String, TyConId)>,
    k: nat,
    name: Seq<char>,
)
    requires
        k <= imported.len(),
        !names.dom().contains(name),
    ensures
        forall|i: int|
            0 <= i < k && (#[trigger] imported[i]).0@ == name && (forall|j: int|
                0 <= j < i ==> (#[trigger] imported[j]).0@ != name) ==> entry(
                with_imported(names, imported, k),
                name,
            ) == Some(imported[i].1),
        (forall|j: int| 0 <= j < k ==> (#[trigger] imported[j]).0@ != name) ==> entry(
            with_imported(names, imported, k),
            name,
        ) is None,
    decreases k,
{
    if k > 0 {
        imported_types_are_known(names, imported, (k - 1) as nat, name);
        let before = with_imported(names, imported, (k - 1) as nat);
        let after = with_imported(names, imported, k);
        if imported[k - 1].0@ != name {
            assert(entry(after, name) == entry(before, name));
        }
        assert forall|i: int|
            0 <= i < k && (#[trigger] imported[i]).0@ == name && (forall|j: int|
                0 <= j < i ==> (#[trigger] imported[j]).0@ != name) implies entry(after, name)
            == Some(imported[i].1) by {
            if i < k - 1 {
                assert(entry(before, name) == Some(imported[i].1));
            }
        }
    }
}

/// Each name of a list is in scope under its scheme, the last of a name is meant,
/// and other names stay what they are.
pub proof fn listed_schemes_are_seen(
    env: Scopes,
    schemes: Seq<(String, Scheme)>,
    k: nat,
    name: Seq<char>,
)
    requires
        env.len() > 0,
        k <= schemes.len(),
    ensures
        with_schemes(env, schemes, k).len() == env.len(),
        (forall|j: int| 0 <= j < k ==> (#[trigger] schemes[j]).0@ != name) ==> in_scope(
            with_schemes(env, schemes, k),
            name,
        ) == in_scope(env, name),
        forall|i: int|
            0 <= i < k && (#[trigger] schemes[i]).0@ == name && (forall|j: int|
                i < j < k ==> (#[trigger] schemes[j]).0@ != name) ==> in_scope(
                with_schemes(env, schemes, k),
                name,
            ) == Some(schemes[i].1@),
    decreases k,
{
    if k > 0 {
        listed_schemes_are_seen(env, schemes, (k - 1) as nat, name);
        let before = with_schemes(env, schemes, (k - 1) as nat);
        bindings_are_seen(before, schemes[k - 1].0@, schemes[k - 1].1@, name);
        let after = with_schemes(env, schemes, k);
        assert forall|i: int|
            0 <= i < k && (#[trigger] schemes[i]).0@ == name && (forall|j: int|
                i < j < k ==> (#[trigger] schemes[j]).0@ != name) implies in_scope(after, name)
            == Some(schemes[i].1@) by {
            if i < k - 1 {
                assert(schemes[k - 1].0@ != name);
            }
        }
    }
}

/// A receiver of queries is a type of the standard library where that has one of
/// the name, else one of the workspace, else one of the module.
pub proof fn receivers_are_found(n: TypeNames, name: Seq<char>)
    ensures
        n.stdlib.dom().contains(name) ==> receiver(n, name) == Some(n.stdlib[name]),
        !n.stdlib.dom().contains(name) && n.global.dom().contains(name) ==> receiver(n, name)
            == Some(n.global[name]),
        !n.stdlib.dom().contains(name) && !n.global.dom().contains(name) && n.user.dom().contains(
            name,
        ) ==> receiver(n, name) == Some(n.user[name]),
        receiver(n, name) is Some ==> n.stdlib.dom().contains(name) || n.global.dom().contains(name)
            || n.user.dom().contains(name),
{
}

/// The receivers of queries are those of their names.
pub proof fn queries_have_their_receivers(b: BuiltinTyCons, n: TypeNames)
    ensures
        rows_types(b, n) is Some <==> receiver(n, "Query"@) is Some && receiver(n, "Join"@) is Some
            && receiver(n, "LeftJoin"@) is Some,
        rows_types(b, n) matches Some(r) ==> {
            &&& receiver(n, "Query"@) == Some(r.query)
            &&& receiver(n, "Join"@) == Some(r.join)
            &&& receiver(n, "LeftJoin"@) == Some(r.left_join)
            &&& receiver(n, "RightJoin"@) is Some ==> receiver(n, "RightJoin"@) == Some(
                r.right_join,
            )
            &&& receiver(n, "FullJoin"@) is Some ==> receiver(n, "FullJoin"@) == Some(r.full_join)
            &&& receiver(n, "RightJoin"@) is None ==> r.right_join == r.left_join
            &&& receiver(n, "FullJoin"@) is None ==> r.full_join == r.left_join
            &&& r.option == b.option
        },
{
}

} // verus!

use vstd::prelude::*;
use vstd::string::*;

use crate::ctx::{with_binding, InferCtx};
use crate::prelude::{err_scheme, none_scheme, ok_scheme, prelude_value, some_scheme};
use crate::text::{same_text, text3};
use crate::types::{BuiltinTyCons, Poly, Scheme};

verus! {

/// What an import refers to.
#[derive(Clone, Copy, Debug, PartialEq, Eq, Structural)]
pub enum ImportTarget {
    /// A module of the standard library, by its slot.
    Stdlib(u32),
    /// Any other module.
    Other,
}

/// What a name that an import brings stands for.
#[derive(Debug)]
pub enum Binding {
    /// A whole module.
    ModuleAlias(ImportTarget),
    /// One export of a module of the standard library.
    StdlibSymbol { module: u32, name: String },
    /// Anything else.
    Other,
}

/// A name that an import brings.
#[derive(Debug)]
pub struct EffectiveBinding {
    pub local_name: String,
    pub binding: Binding,
}

/// An import, resolved.
#[derive(Debug)]
pub struct ImportResolution {
    pub target: ImportTarget,
    pub alias: Option<String>,
    pub effective_bindings: Vec<EffectiveBinding>,
}

/// The exports of a module of the standard library.
#[derive(Debug)]
pub struct StdlibModule {
    pub exports: Vec<String>,
}

/// The signature of an export of the standard library.
#[derive(Debug)]
pub struct StdlibSignature {
    pub module: u32,
    pub name: String,
    pub scheme: Scheme,
}

/// A constructor of a type that the standard library declares in source.
#[derive(Debug)]
pub struct StdlibCtor {
    pub name: String,
    pub scheme: Scheme,
}

/// The standard library: its modules, the signatures of their exports, and the
/// constructors without one.
#[derive(Debug)]
pub struct Stdlib {
    pub modules: Vec<StdlibModule>,
    pub signatures: Vec<StdlibSignature>,
    pub ctors: Vec<StdlibCtor>,
}

/// The signature of an export.
pub open spec fn signature_of(ss: Seq<StdlibSignature>, module: u32, name: Seq<char>) -> Option<Poly>
    decreases ss.len(),
{
    if ss.len() == 0 {
        None
    } else if ss[0].module == module && ss[0].name@ == name {
        Some(ss[0].scheme@)
    } else {
        signature_of(ss.skip(1), module, name)
    }
}

/// The scheme of a constructor.
pub open spec fn ctor_of(cs: Seq<StdlibCtor>, name: Seq<char>) -> Option<Poly>
    decreases cs.len(),
{
    if cs.len() == 0 {
        None
    } else if cs[0].name@ == name {
        Some(cs[0].scheme@)
    } else {
        ctor_of(cs.skip(1), name)
    }
}

impl Stdlib {
    /// The signature of an export.
    pub fn signature(&self, module: u32, name: &str) -> (r: Option<&Scheme>)
        ensures
            r is Some <==> signature_of(self.signatures@, module, name@) is Some,
            r matches Some(s) ==> signature_of(self.signatures@, module, name@) == Some(s@),
    {
        let mut i: usize = 0;
        assert(self.signatures@.skip(0) =~= self.signatures@);
        while i < self.signatures.len()
            invariant
                i <= self.signatures@.len(),
                signature_of(self.signatures@, module, name@) == signature_of(
                    self.signatures@.skip(i as int),
                    module,
                    name@,
                ),
            decreases self.signatures@.len() - i,
        {
            let ghost rest = self.signatures@.skip(i as int);
            assert(rest[0] == self.signatures@[i as int]);
            assert(rest.skip(1) =~= self.signatures@.skip(i + 1));
            let s = &self.signatures[i];
            if s.module == module && same_text(s.name.as_str(), name) {
                return Some(&s.scheme);
            }
            i = i + 1;
        }
        None
    }

    /// The scheme of a constructor without a signature.
    pub fn ctor_scheme(&self, name: &str) -> (r: Option<&Scheme>)
        ensures
            r is Some <==> ctor_of(self.ctors@, name@) is Some,
            r matches Some(s) ==> ctor_of(self.ctors@, name@) == Some(s@),
    {
        let mut i: usize = 0;
        assert(self.ctors@.skip(0) =~= self.ctors@);
        while i < self.ctors.len()
            invariant
                i <= self.ctors@.len(),
                ctor_of(self.ctors@, name@) == ctor_of(self.ctors@.skip(i as int), name@),
            decreases self.ctors@.len() - i,
        {
            let ghost rest = self.ctors@.skip(i as int);
            assert(rest[0] == self.ctors@[i as int]);
            assert(rest.skip(1) =~= self.ctors@.skip(i + 1));
            if same_text(self.ctors[i].name.as_str(), name) {
                return Some(&self.ctors[i].scheme);
            }
            i = i + 1;
        }
        None
    }
}

/// The names in scope.
pub type Scopes = Seq<Seq<(Seq<char>, Poly)>>;

/// Binds the first `k` exports of a module behind an alias and a dot.
pub open spec fn with_exports(
    env: Scopes,
    lib: Stdlib,
    module: u32,
    exports: Seq<String>,
    alias: Seq<char>,
    k: nat,
) -> Scopes
    decreases k,
{
    if k == 0 || k > exports.len() {
        env
    } else {
        let before = with_exports(env, lib, module, exports, alias, (k - 1) as nat);
        let name = exports[k - 1]@;
        match signature_of(lib.signatures@, module, name) {
            Some(p) => with_binding(before, alias + "."@ + name, p),
            None => before,
        }
    }
}

/// Binds every export of a module behind an alias and a dot.
pub open spec fn with_module(env: Scopes, lib: Stdlib, module: u32, alias: Seq<char>) -> Scopes {
    if module < lib.modules@.len() {
        let exports = lib.modules@[module as int].exports@;
        with_exports(env, lib, module, exports, alias, exports.len())
    } else {
        env
    }
}

/// Binds what one name of an import stands for.
pub open spec fn with_effective(env: Scopes, lib: Stdlib, eb: EffectiveBinding) -> Scopes {
    match eb.binding {
        Binding::ModuleAlias(ImportTarget::Stdlib(module)) => with_module(
            env,
            lib,
            module,
            eb.local_name@,
        ),
        Binding::StdlibSymbol { module, name } => match signature_of(
            lib.signatures@,
            module,
            name@,
        ) {
            Some(p) => with_binding(env, eb.local_name@, p),
            None => match ctor_of(lib.ctors@, name@) {
                Some(p) => with_binding(env, eb.local_name@, p),
                None => env,
            },
        },
        _ => env,
    }
}

/// Binds what the first `k` names of an import stand for.
pub open spec fn with_effectives(
    env: Scopes,
    lib: Stdlib,
    ebs: Seq<EffectiveBinding>,
    k: nat,
) -> Scopes
    decreases k,
{
    if k == 0 || k > ebs.len() {
        env
    } else {
        with_effective(with_effectives(env, lib, ebs, (k - 1) as nat), lib, ebs[k - 1])
    }
}

/// One of the names of an import stands for a whole module.
pub open spec fn has_alias(ebs: Seq<EffectiveBinding>) -> bool {
    exists|i: int| 0 <= i < ebs.len() && (#[trigger] ebs[i]).binding is ModuleAlias
}

/// Binds what an import of the standard library brings.
pub open spec fn with_import(env: Scopes, lib: Stdlib, import: ImportResolution) -> Scopes {
    match import.target {
        ImportTarget::Stdlib(module) => if module < lib.modules@.len() {
            let ebs = import.effective_bindings@;
            let bound = with_effectives(env, lib, ebs, ebs.len());
            match import.alias {
                Some(alias) => if has_alias(ebs) {
                    bound
                } else {
                    with_module(bound, lib, module, alias@)
                },
                None => bound,
            }
        } else {
            env
        },
        ImportTarget::Other => env,
    }
}

/// Binds what the first `k` imports bring.
pub open spec fn with_imports(
    env: Scopes,
    lib: Stdlib,
    imports: Seq<ImportResolution>,
    k: nat,
) -> Scopes
    decreases k,
{
    if k == 0 || k > imports.len() {
        env
    } else {
        with_import(with_imports(env, lib, imports, (k - 1) as nat), lib, imports[k - 1])
    }
}

/// Binds the constructors that are in scope everywhere.
pub open spec fn with_prelude(env: Scopes, b: BuiltinTyCons) -> Scopes {
    let e1 = with_binding(env, "Some"@, prelude_value(b, "Some"@)->0);
    let e2 = with_binding(e1, "None"@, prelude_value(b, "None"@)->0);
    let e3 = with_binding(e2, "Ok"@, prelude_value(b, "Ok"@)->0);
    with_binding(e3, "Err"@, prelude_value(b, "Err"@)->0)
}

/// Only the names in scope change, and no scope is opened or closed.
pub open spec fn only_bound(c: InferCtx, d: InferCtx) -> bool {
    d.env@.len() == c.env@.len() && d == (InferCtx { env: d.env, ..c })
}

/// Binds every export of a module behind an alias and a dot.
fn bind_module_qualified(ctx: &mut InferCtx, lib: &Stdlib, module: u32, local_alias: &str)
    requires
        old(ctx).env@.len() > 0,
    ensures
        final(ctx).env@ == with_module(old(ctx).env@, *lib, module, local_alias@),
        only_bound(*old(ctx), *final(ctx)),
{
    let at: usize = module as usize;
    if at >= lib.modules.len() {
        return;
    }
    let exports = &lib.modules[at].exports;
    let ghost env = ctx.env@;
    let mut i: usize = 0;
    while i < exports.len()
        invariant
            i <= exports@.len(),
            env == old(ctx).env@,
            env.len() > 0,
            ctx.env@ == with_exports(env, *lib, module, exports@, local_alias@, i as nat),
            only_bound(*old(ctx), *ctx),
        decreases exports@.len() - i,
    {
        let name = exports[i].as_str();
        if let Some(scheme) = lib.signature(module, name) {
            let key = text3(local_alias, ".", name);
            ctx.env.bind(key, scheme.clone());
        }
        i = i + 1;
    }
}

fn bind_effective(ctx: &mut InferCtx, lib: &Stdlib, eb: &EffectiveBinding)
    requires
        old(ctx).env@.len() > 0,
    ensures
        final(ctx).env@ == with_effective(old(ctx).env@, *lib, *eb),
        only_bound(*old(ctx), *final(ctx)),
{
    match &eb.binding {
        Binding::ModuleAlias(target) => match target {
            ImportTarget::Stdlib(module) => {
                bind_module_qualified(ctx, lib, *module, eb.local_name.as_str());
            },
            ImportTarget::Other => {},
        },
        Binding::StdlibSymbol { module, name } => match lib.signature(*module, name.as_str()) {
            Some(scheme) => {
                ctx.env.bind(eb.local_name.clone(), scheme.clone());
            },
            None => {
                if let Some(scheme) = lib.ctor_scheme(name.as_str()) {
                    ctx.env.bind(eb.local_name.clone(), scheme.clone());
                }
            },
        },
        Binding::Other => {},
    }
}

fn any_alias(ebs: &Vec<EffectiveBinding>) -> (r: bool)
    ensures
        r == has_alias(ebs@),
{
    let mut i: usize = 0;
    while i < ebs.len()
        invariant
            i <= ebs@.len(),
            forall|k: int| 0 <= k < i ==> !((#[trigger] ebs@[k]).binding is ModuleAlias),
        decreases ebs@.len() - i,
    {
        if let Binding::ModuleAlias(_) = &ebs[i].binding {
            assert(ebs@[i as int].binding is ModuleAlias);
            return true;
        }
        i = i + 1;
    }
    false
}

fn bind_import(ctx: &mut InferCtx, lib: &Stdlib, import: &ImportResolution)
    requires
        old(ctx).env@.len() > 0,
    ensures
        final(ctx).env@ == with_import(old(ctx).env@, *lib, *import),
        only_bound(*old(ctx), *final(ctx)),
{
    match &import.target {
        ImportTarget::Stdlib(module) => {
            if *module as usize >= lib.modules.len() {
                return;
            }
            let ebs = &import.effective_bindings;
            let ghost env = ctx.env@;
            let mut i: usize = 0;
            while i < ebs.len()
                invariant
                    i <= ebs@.len(),
                    env == old(ctx).env@,
                    env.len() > 0,
                    ctx.env@ == with_effectives(env, *lib, ebs@, i as nat),
                    only_bound(*old(ctx), *ctx),
                decreases ebs@.len() - i,
            {
                bind_effective(ctx, lib, &ebs[i]);
                i = i + 1;
            }
            if let Some(alias) = &import.alias {
                if !any_alias(ebs) {
                    bind_module_qualified(ctx, lib, *module, alias.as_str());
                }
            }
        },
        ImportTarget::Other => {},
    }
}

/// Binds the constructors that are in scope everywhere, and then what the
/// imports bring of the standard library.
pub fn seed_stdlib_env(
    ctx: &mut InferCtx,
    b: &BuiltinTyCons,
    imports: &Vec<ImportResolution>,
    lib: &Stdlib,
)
    requires
        old(ctx).env@.len() > 0,
    ensures
        final(ctx).env@ == with_imports(
            with_prelude(old(ctx).env@, *b),
            *lib,
            imports@,
            imports@.len(),
        ),
        only_bound(*old(ctx), *final(ctx)),
{
    proof {
        reveal_strlit("Some");
        reveal_strlit("None");
        reveal_strlit("Ok");
        reveal_strlit("Err");
        assert("Some"@.len() == 4 && "None"@.len() == 4 && "Ok"@.len() == 2 && "Err"@.len() == 3);
        assert("Some"@[0] != "None"@[0]);
    }
    ctx.env.bind("Some".to_owned(), some_scheme(b));
    ctx.env.bind("None".to_owned(), none_scheme(b));
    ctx.env.bind("Ok".to_owned(), ok_scheme(b));
    ctx.env.bind("Err".to_owned(), err_scheme(b));
    let ghost env = ctx.env@;
    assert(env == with_prelude(old(ctx).env@, *b));
    let mut i: usize = 0;
    while i < imports.len()
        invariant
            i <= imports@.len(),
            env == with_prelude(old(ctx).env@, *b),
            old(ctx).env@.len() > 0,
            ctx.env@ == with_imports(env, *lib, imports@, i as nat),
            only_bound(*old(ctx), *ctx),
        decreases imports@.len() - i,
    {
        bind_import(ctx, lib, &imports[i]);
        i = i + 1;
    }
}

} // verus!
